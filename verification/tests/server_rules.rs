use cms_for_rust::auth::{migration_st, verify_exp_at, EmailPassword, MayExtend, TokenError};
use cms_for_rust::error::{
    entry_not_found, missing_id_in_query, not_found, to_refactor, verify_initialization,
    ClientError, ErrorInternal, GlobalError, InitializationError, InsertError, InsertErrorInternal,
    PanicError, StatusCode,
};
use cms_for_rust::invoking::{invoking, With};
use cms_for_rust::expect::Similar;
use cms_for_rust::schema::{
    col_type_check_if_null, primary_key, DefaultPrimaryKey, Postgres, Sqlite, Ty,
};

#[test]
fn status_codes() {
    assert!(StatusCode::from_u16(99).is_none());
    assert!(StatusCode::from_u16(1000).is_none());
    assert_eq!(StatusCode::from_u16(418).map(|s| s.as_u16()), Some(418));
    assert_eq!(StatusCode::not_found().canonical_reason(), Some("Not Found"));
    assert_eq!(StatusCode::bad_request().canonical_reason(), Some("Bad Request"));
    assert_eq!(StatusCode::from_u16(599).unwrap().canonical_reason(), None);
    assert!(StatusCode::internal_server_error().is_server_error());
    assert!(!StatusCode::unauthorized().is_server_error());
}

#[test]
fn client_error_hint() {
    let e = ClientError::from_hint("title is missing".to_string());
    assert_eq!(e.status_code.as_u16(), 400);
    assert_eq!(e.response_hint(), "Bad Request: title is missing");
    let e = e.with_status(StatusCode::from_u16(499).unwrap());
    assert_eq!(e.response_hint(), "title is missing");
    let e = ClientError::from_hint("x".to_string()).add_user_error("code_1", "fix it", |mut u| {
        u.user_hint.push('!');
        u
    });
    let u = e.user_error.unwrap();
    assert_eq!(u.code, "code_1");
    assert_eq!(u.user_hint, "fix it!");
    assert!(u.structured_hint.is_none());
}

#[test]
fn token_errors() {
    let e = TokenError::TokenExpired.into_client_error();
    assert_eq!(e.status_code.as_u16(), 401);
    assert_eq!(e.dev_hint, "token is valid but has expired");
    assert_eq!(e.user_error.as_ref().unwrap().code, "token_expired");
    assert_eq!(e.response_hint(), "Unauthorized: token is valid but has expired");
    let e = TokenError::TokenInvalid.into_client_error();
    assert_eq!(e.dev_hint, "invalid signature");
    assert!(e.user_error.is_none());
}

#[test]
fn token_expiry() {
    assert_eq!(verify_exp_at(100, 99, 999_999_999), Ok(()));
    assert_eq!(verify_exp_at(100, 100, 0), Ok(()));
    assert_eq!(verify_exp_at(100, 100, 1), Err(TokenError::TokenExpired));
    assert_eq!(verify_exp_at(100, 101, 0), Err(TokenError::TokenExpired));
}

#[test]
fn response_fields() {
    let g = to_refactor("bad column");
    assert_eq!(g.response_fields(), (400, "Bad Request".to_string(), Some("bad column".to_string())));
    let g = entry_not_found("todo");
    assert!(matches!(&g.1, ErrorInternal::EntryNotFound(s) if s == "todo"));
    assert_eq!(g.response_fields(), (404, "Not Found".to_string(), None));
    assert_eq!(not_found(3).response_fields().0, 404);
    assert_eq!(missing_id_in_query().response_fields().0, 400);
    let g = GlobalError::from_info("a".to_string()).info("b");
    assert!(matches!(&g.1, ErrorInternal::MoreInfo(s) if s == "b"));
    let i = InsertError::from_global(g);
    assert_eq!(i.1, InsertErrorInternal::Other("b".to_string()));
    assert_eq!(i.response_fields(), (400, "Bad Request".to_string(), Some("b".to_string())));
    let i = InsertError::from_global(not_found(1));
    assert_eq!(i.1, InsertErrorInternal::Unkown);
    let i = InsertError::to_refactor(StatusCode::from_u16(599).unwrap(), "dev");
    assert_eq!(i.response_fields(), (599, String::new(), Some("dev".to_string())));
    let (code, body) = PanicError.response();
    assert_eq!((code.as_u16(), body), (500, "server paniced"));
}

#[test]
fn initialization() {
    assert_eq!(verify_initialization(true), Ok(()));
    assert_eq!(
        verify_initialization(false),
        Err(InitializationError("JWT_SALT not set".to_string()))
    );
}

#[test]
fn credentials_and_extension() {
    let e = EmailPassword::from_hashed("a@b.c".to_string(), "h".to_string());
    assert_eq!(e.email, "a@b.c");
    assert_eq!(e.password, "h");
    let mut m = MayExtend(None);
    m.extend_for("7");
    assert_eq!(m.0, Some("7".to_string()));
    assert!(migration_st().contains("CREATE TABLE IF NOT EXISTS _super_users"));
}

#[test]
fn schema_clauses() {
    assert_eq!(col_type_check_if_null::<i32>().display("INTEGER"), "INTEGER NOT NULL");
    assert_eq!(col_type_check_if_null::<Option<String>>().display("TEXT"), "TEXT");
    assert_eq!(DefaultPrimaryKey.display::<Sqlite>(), "PRIMARY KEY AUTOINCREMENT");
    assert_eq!(DefaultPrimaryKey.display::<Postgres>(), "PRIMARY KEY");
    assert_eq!(primary_key::<Postgres>().display("SERIAL"), "SERIAL PRIMARY KEY");
    assert_eq!(Ty::parse("has_optional_to_many"), Ok(Ty::HasOptionalToMany));
    assert_eq!(Ty::parse("has_many_to_many"), Ok(Ty::HasManyToMany));
    assert_eq!(
        Ty::parse("has_one"),
        Err("unknown relation type, expected `has_optional_to_many` or `has_many_to_many`"
            .to_string())
    );
}

#[test]
fn invoking_expectations() {
    let app = ();
    let req = invoking::<(), String>(&app).status(StatusCode::not_found()).body("b".to_string());
    assert!(req.similar(With { builder: http::Request::builder().uri("/") }).is_ok());
    assert!(req
        .similar(With { builder: Ok::<_, http::Error>(http::Request::builder()) })
        .is_ok());
    let err: http::Error = http::Uri::try_from("a b").unwrap_err().into();
    let msg = err.to_string();
    assert!(!msg.is_empty());
    assert_eq!(
        req.similar(With { builder: Err::<http::request::Builder, http::Error>(err) }),
        Err(msg)
    );
}

#[test]
fn invoking_with_a_json_body() {
    let app = ();
    let req = invoking::<(), serde_json::Value>(&app).json(serde_json::Value::from(3));
    assert!(req.similar(With { builder: http::Request::builder() }).is_ok());
}
