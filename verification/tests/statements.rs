use cms_for_rust::statement::{insert_statement, InsertSt3, InsertSt4};

#[test]
fn insert_statement_numbers_binds_across_rows() {
    let st = InsertSt4 {
        input: vec!["title", "done"],
        output: Some(vec!["id", "title", "done"]),
        column: 2,
        from: "Todo",
    };
    assert_eq!(
        st.build(),
        "INSERT INTO Todo (title, done) VALUES ($1, $2), ($3, $4) RETURNING id, title, done"
    );
}

#[test]
fn insert_statement_without_returning() {
    let st = InsertSt3 { input: vec!["a"], output: None, column: 1, from: "t" };
    assert_eq!(st.build(), "INSERT INTO t (a) VALUES ($1)");
}

#[test]
fn insert_statement_edges() {
    assert_eq!(insert_statement("t", &vec![], 0, &None), "INSERT INTO t () VALUES ");
    assert_eq!(insert_statement("t", &vec![], 2, &None), "INSERT INTO t () VALUES (), ()");
    let cols: Vec<&str> = vec!["c"; 11];
    let s = insert_statement("t", &cols, 1, &Some(vec![]));
    assert!(s.ends_with("$10, $11) RETURNING "));
}
