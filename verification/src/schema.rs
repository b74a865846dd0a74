use vstd::prelude::*;
use std::marker::PhantomData;
use crate::text::push_str;

verus! {

/// Whether a column type admits NULL.
pub trait IsNull {
    spec fn null_spec() -> bool;

    fn is_null() -> (r: bool)
        ensures
            r == Self::null_spec(),
    ;
}

impl<T> IsNull for Option<T> {
    open spec fn null_spec() -> bool {
        true
    }

    fn is_null() -> (r: bool) {
        true
    }
}

impl IsNull for i32 {
    open spec fn null_spec() -> bool {
        false
    }

    fn is_null() -> (r: bool) {
        false
    }
}

impl IsNull for i64 {
    open spec fn null_spec() -> bool {
        false
    }

    fn is_null() -> (r: bool) {
        false
    }
}

impl IsNull for bool {
    open spec fn null_spec() -> bool {
        false
    }

    fn is_null() -> (r: bool) {
        false
    }
}

impl IsNull for char {
    open spec fn null_spec() -> bool {
        false
    }

    fn is_null() -> (r: bool) {
        false
    }
}

impl IsNull for String {
    open spec fn null_spec() -> bool {
        false
    }

    fn is_null() -> (r: bool) {
        false
    }
}

/// A database that the schema can be written for.
pub trait SqlxQuery {
    spec fn primary_key_spec() -> Seq<char>;

    /// The clause that makes the default key column the primary key.
    fn default_primary_key() -> (r: &'static str)
        ensures
            r@ == Self::primary_key_spec(),
    ;
}

/// SQLite.
pub struct Sqlite;

/// PostgreSQL.
pub struct Postgres;

impl SqlxQuery for Sqlite {
    open spec fn primary_key_spec() -> Seq<char> {
        "PRIMARY KEY AUTOINCREMENT"@
    }

    fn default_primary_key() -> (r: &'static str) {
        "PRIMARY KEY AUTOINCREMENT"
    }
}

impl SqlxQuery for Postgres {
    open spec fn primary_key_spec() -> Seq<char> {
        "PRIMARY KEY"@
    }

    fn default_primary_key() -> (r: &'static str) {
        "PRIMARY KEY"
    }
}

/// The column type of `T`, with `NOT NULL` where `T` admits no NULL.
pub struct ColumnTypeCheckIfNull<T>(pub PhantomData<T>);

impl<T: IsNull> ColumnTypeCheckIfNull<T> {
    /// The column definition for the database type named `column_type`.
    pub fn display(&self, column_type: &str) -> (r: String)
        ensures
            r@ == column_type@ + (if T::null_spec() {
                Seq::empty()
            } else {
                " NOT NULL"@
            }),
    {
        let mut s = String::new();
        push_str(&mut s, column_type);
        if !T::is_null() {
            push_str(&mut s, " NOT NULL");
        }
        assert(s@ =~= column_type@ + (if T::null_spec() {
            Seq::empty()
        } else {
            " NOT NULL"@
        }));
        s
    }
}

/// The column type of `T`.
pub fn col_type_check_if_null<T>() -> ColumnTypeCheckIfNull<T> {
    ColumnTypeCheckIfNull(PhantomData)
}

/// The primary-key clause of the database.
pub struct DefaultPrimaryKey;

impl DefaultPrimaryKey {
    /// The clause for database `S`.
    pub fn display<S: SqlxQuery>(&self) -> (r: String)
        ensures
            r@ == S::primary_key_spec(),
    {
        let mut s = String::new();
        push_str(&mut s, S::default_primary_key());
        s
    }
}

/// The primary-key column of database `S`: its key type and clause.
pub struct PK<S>(pub PhantomData<S>);

/// The primary-key column of database `S`.
pub fn primary_key<S>() -> PK<S> {
    PK(PhantomData)
}

impl<S: SqlxQuery> PK<S> {
    /// The column definition, for the key type named `key_type`.
    pub fn display(&self, key_type: &str) -> (r: String)
        ensures
            r@ == key_type@ + " "@ + S::primary_key_spec(),
    {
        let mut s = String::new();
        push_str(&mut s, key_type);
        push_str(&mut s, " ");
        push_str(&mut s, S::default_primary_key());
        s
    }
}

/// A kind of relation between two collections.
#[derive(Debug, Clone, Copy, PartialEq, Eq)]
pub enum Ty {
    HasOptionalToMany,
    HasManyToMany,
}

impl Ty {
    /// The relation named by the keyword `word`: `has_optional_to_many` or
    /// `has_many_to_many`; any other word is refused with a message.
    pub fn parse(word: &str) -> (r: Result<Ty, String>)
        ensures
            word@ == "has_optional_to_many"@ ==> r == Ok::<Ty, String>(Ty::HasOptionalToMany),
            word@ == "has_many_to_many"@ ==> r == Ok::<Ty, String>(Ty::HasManyToMany),
            word@ != "has_optional_to_many"@ && word@ != "has_many_to_many"@ ==> (r matches Err(m)
                && m@
                == "unknown relation type, expected `has_optional_to_many` or `has_many_to_many`"@),
    {
        proof {
            reveal_strlit("has_optional_to_many");
            reveal_strlit("has_many_to_many");
            assert("has_optional_to_many"@[4] != "has_many_to_many"@[4]);
        }
        let w = crate::text::string_of(word);
        let a = crate::text::string_of("has_optional_to_many");
        let b = crate::text::string_of("has_many_to_many");
        if w == a {
            return Ok(Ty::HasOptionalToMany);
        } else if w == b {
            return Ok(Ty::HasManyToMany);
        }
        Err(
            crate::text::string_of(
                "unknown relation type, expected `has_optional_to_many` or `has_many_to_many`",
            ),
        )
    }
}

/// A to-do item of the example client.
pub struct Todo {
    pub title: String,
    pub done: bool,
    pub description: Option<String>,
}

/// A category of the example client.
pub struct Category {
    pub title: String,
}

/// A tag of the example client.
pub struct Tag {
    pub title: String,
}

} // verus!
