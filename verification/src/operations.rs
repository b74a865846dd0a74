use vstd::prelude::*;
use std::marker::PhantomData;

verus! {

/// The id of an entry, as a query gives it.
#[derive(Debug)]
pub struct Id {
    pub id: i64,
}

/// An entry as returned: its id and attributes.
#[derive(Clone, Debug, PartialEq)]
pub struct SimpleOutput<C> {
    pub id: i64,
    pub attr: C,
}

/// An entry of collection `C` as returned by its id alone.
#[derive(Debug, PartialEq)]
pub struct IdOutput<C> {
    pub id: i64,
    pub _pd: PhantomData<C>,
}

/// The input of a select-one operation: the collection, the query and the relations to
/// populate.
#[derive(Debug)]
pub struct SelectInput<E, Q, R> {
    pub entity: E,
    pub query: Q,
    pub relations: R,
}

/// The input of a select-all operation: the collection, the query and the relations to
/// populate.
#[derive(Debug)]
pub struct SelectAllInput<E, Q, R> {
    pub entity: E,
    pub query: Q,
    pub relations: R,
}

/// A page of a select-all operation.
#[derive(Debug)]
pub struct Pagination {
    pub page_size: i64,
    pub page_shift: i64,
}

/// A field of an update: kept as it is, or set to a value.
#[derive(Debug, PartialEq, Eq, PartialOrd, Ord, Clone)]
#[allow(non_camel_case_types)]
pub enum Update<T> {
    keep,
    set(T),
}

/// A collection with a column `C`.
pub trait HasCol<C> {
    type This;

    fn name() -> &'static str;
}

} // verus!
