use vstd::prelude::*;
use std::sync::Arc;

verus! {

/// Two texts shared between the steps of a collection.
pub struct This {
    pub to: String,
    pub to2: String,
}

/// Two steps that may adjust a text; both leave it as it is unless overridden.
pub trait Trait {
    fn fn_1(&mut self, s: &mut String) {
    }

    fn fn_2(&mut self, s: &mut String) {
    }
}

/// A step holder that shares `This`.
pub struct Dep {
    pub this: Arc<This>,
    pub to3: String,
}

impl Trait for Dep {

}

} // verus!
