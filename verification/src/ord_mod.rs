use vstd::prelude::*;
use crate::expect::{Similar, SimilarResult};
use crate::text::{push_signed_wide_decimal, push_str};
use std::marker::PhantomData;

verus! {

/// Bounds that a value should meet: below `less_than`, above `greater_than`, equal to
/// `equal`, each where it is set.
pub struct OrdBuilder<T> {
    to_data: PhantomData<T>,
    less_than: Option<T>,
    greater_than: Option<T>,
    equal: Option<T>,
}

impl<T> OrdBuilder<T> {
    /// The upper bound, where set.
    pub closed spec fn less_than_bound(self) -> Option<T> {
        self.less_than
    }

    /// The lower bound, where set.
    pub closed spec fn greater_than_bound(self) -> Option<T> {
        self.greater_than
    }

    /// The value to equal, where set.
    pub closed spec fn equal_bound(self) -> Option<T> {
        self.equal
    }
}

/// No bounds yet.
pub fn ord<T>() -> (r: OrdBuilder<T>)
    ensures
        r.less_than_bound() is None,
        r.greater_than_bound() is None,
        r.equal_bound() is None,
{
    OrdBuilder { to_data: PhantomData, less_than: None, greater_than: None, equal: None }
}

impl<T> OrdBuilder<T> {
    /// The value should be less than `other`.
    pub fn less_than(self, other: T) -> (r: Self)
        ensures
            r.less_than_bound() == Some(other),
            r.greater_than_bound() == self.greater_than_bound(),
            r.equal_bound() == self.equal_bound(),
    {
        let mut s = self;
        s.less_than = Some(other);
        s
    }

    /// The value should be greater than `other`.
    pub fn greater_than(self, other: T) -> (r: Self)
        ensures
            r.greater_than_bound() == Some(other),
            r.less_than_bound() == self.less_than_bound(),
            r.equal_bound() == self.equal_bound(),
    {
        let mut s = self;
        s.greater_than = Some(other);
        s
    }

    /// The value should equal `other`.
    pub fn equal(self, other: T) -> (r: Self)
        ensures
            r.equal_bound() == Some(other),
            r.less_than_bound() == self.less_than_bound(),
            r.greater_than_bound() == self.greater_than_bound(),
    {
        let mut s = self;
        s.equal = Some(other);
        s
    }
}

/// Whether `v` meets the bounds of `b`.
pub open spec fn meets(v: int, less_than: Option<int>, greater_than: Option<int>, equal: Option<
    int,
>) -> bool {
    &&& (less_than matches Some(l) ==> v < l)
    &&& (greater_than matches Some(g) ==> v > g)
    &&& (equal matches Some(e) ==> v == e)
}

pub open spec fn widen(o: Option<i64>) -> Option<int> {
    match o {
        Some(x) => Some(x as int),
        None => None,
    }
}

/// The message: `expected: v to be <relation> bound`.
fn bound_failure(v: i128, relation: &str, bound: i128) -> (r: String)
    ensures
        r@ == "expected: "@ + crate::text::signed_decimal(v as int) + relation@
            + crate::text::signed_decimal(bound as int),
{
    let mut msg = String::new();
    push_str(&mut msg, "expected: ");
    push_signed_wide_decimal(&mut msg, v);
    push_str(&mut msg, relation);
    push_signed_wide_decimal(&mut msg, bound);
    assert(msg@ =~= "expected: "@ + crate::text::signed_decimal(v as int) + relation@
        + crate::text::signed_decimal(bound as int));
    msg
}

/// The message of the first bound, in the order less-than, greater-than, equal, that `v`
/// fails.
pub open spec fn bounds_message(v: int, less_than: Option<int>, greater_than: Option<int>, equal: Option<
    int,
>) -> Seq<char> {
    if less_than is Some && !(v < less_than->0) {
        "expected: "@ + crate::text::signed_decimal(v) + " to be less than "@ + crate::text::signed_decimal(less_than->0)
    } else if greater_than is Some && !(v > greater_than->0) {
        "expected: "@ + crate::text::signed_decimal(v) + " to be greater than "@
            + crate::text::signed_decimal(greater_than->0)
    } else if equal is Some && v != equal->0 {
        "expected: "@ + crate::text::signed_decimal(v) + " to be equal to "@ + crate::text::signed_decimal(equal->0)
    } else {
        Seq::empty()
    }
}

/// An optional bound as an integer.
pub open spec fn wide_bound(o: Option<i128>) -> Option<int> {
    match o {
        Some(x) => Some(x as int),
        None => None,
    }
}

/// Checks `v` against the bounds, in the order less-than, greater-than, equal, and reports
/// the first that fails.
pub fn check_bounds_wide(v: i128, less_than: Option<i128>, greater_than: Option<i128>, equal: Option<i128>) -> (r:
    SimilarResult)
    ensures
        r is Ok <==> meets(v as int, wide_bound(less_than), wide_bound(greater_than), wide_bound(equal)),
        r matches Err(m) ==> m@ == bounds_message(
            v as int,
            wide_bound(less_than),
            wide_bound(greater_than),
            wide_bound(equal),
        ),
{
    if let Some(l) = less_than {
        if !(v < l) {
            return Err(bound_failure(v, " to be less than ", l));
        }
    }
    if let Some(g) = greater_than {
        if !(v > g) {
            return Err(bound_failure(v, " to be greater than ", g));
        }
    }
    if let Some(e) = equal {
        if !(v == e) {
            return Err(bound_failure(v, " to be equal to ", e));
        }
    }
    Ok(())
}

/// Checks a 64-bit `v` against the bounds (see `check_bounds_wide`).
pub fn check_bounds(v: i64, less_than: Option<i64>, greater_than: Option<i64>, equal: Option<i64>) -> (r:
    SimilarResult)
    ensures
        r is Ok <==> meets(v as int, widen(less_than), widen(greater_than), widen(equal)),
        r matches Err(m) ==> m@ == bounds_message(
            v as int,
            widen(less_than),
            widen(greater_than),
            widen(equal),
        ),
{
    let l = wide_opt(less_than);
    let g = wide_opt(greater_than);
    let e = wide_opt(equal);
    check_bounds_wide(v as i128, l, g, e)
}

/// An integer type: its values compare as the integers they are, and each fits in `i128`.
pub trait WideInt: Copy {
    spec fn wide(self) -> int;

    fn to_i128(self) -> (r: i128)
        ensures
            r as int == self.wide(),
    ;
}

impl WideInt for i8 {
    open spec fn wide(self) -> int {
        self as int
    }

    fn to_i128(self) -> (r: i128) {
        self as i128
    }
}

impl WideInt for i16 {
    open spec fn wide(self) -> int {
        self as int
    }

    fn to_i128(self) -> (r: i128) {
        self as i128
    }
}

impl WideInt for i32 {
    open spec fn wide(self) -> int {
        self as int
    }

    fn to_i128(self) -> (r: i128) {
        self as i128
    }
}

impl WideInt for i64 {
    open spec fn wide(self) -> int {
        self as int
    }

    fn to_i128(self) -> (r: i128) {
        self as i128
    }
}

impl WideInt for i128 {
    open spec fn wide(self) -> int {
        self as int
    }

    fn to_i128(self) -> (r: i128) {
        self as i128
    }
}

impl WideInt for isize {
    open spec fn wide(self) -> int {
        self as int
    }

    fn to_i128(self) -> (r: i128) {
        self as i128
    }
}

impl WideInt for u8 {
    open spec fn wide(self) -> int {
        self as int
    }

    fn to_i128(self) -> (r: i128) {
        self as i128
    }
}

impl WideInt for u16 {
    open spec fn wide(self) -> int {
        self as int
    }

    fn to_i128(self) -> (r: i128) {
        self as i128
    }
}

impl WideInt for u32 {
    open spec fn wide(self) -> int {
        self as int
    }

    fn to_i128(self) -> (r: i128) {
        self as i128
    }
}

impl WideInt for u64 {
    open spec fn wide(self) -> int {
        self as int
    }

    fn to_i128(self) -> (r: i128) {
        self as i128
    }
}

impl WideInt for usize {
    open spec fn wide(self) -> int {
        self as int
    }

    fn to_i128(self) -> (r: i128) {
        self as i128
    }
}

/// An optional bound as an integer.
pub open spec fn int_bound<T: WideInt>(o: Option<T>) -> Option<int> {
    match o {
        Some(x) => Some(x.wide()),
        None => None,
    }
}

fn wide_opt<T: WideInt>(o: Option<T>) -> (r: Option<i128>)
    ensures
        wide_bound(r) == int_bound(o),
{
    match o {
        Some(x) => Some(x.to_i128()),
        None => None,
    }
}

impl<T: WideInt> Similar<OrdBuilder<T>> for T {
    open spec fn similar_spec(&self, other: OrdBuilder<T>) -> bool {
        meets(
            self.wide(),
            int_bound(other.less_than_bound()),
            int_bound(other.greater_than_bound()),
            int_bound(other.equal_bound()),
        )
    }

    open spec fn fails_with(&self, other: OrdBuilder<T>, m: Seq<char>) -> bool {
        m == bounds_message(
            self.wide(),
            int_bound(other.less_than_bound()),
            int_bound(other.greater_than_bound()),
            int_bound(other.equal_bound()),
        )
    }

    fn similar(&self, other: OrdBuilder<T>) -> (r: SimilarResult) {
        let l = wide_opt(other.less_than);
        let g = wide_opt(other.greater_than);
        let e = wide_opt(other.equal);
        check_bounds_wide(self.to_i128(), l, g, e)
    }
}

/// Either of two descriptions.
pub struct Or<Phantom, T, O>(pub PhantomData<Phantom>, pub T, pub O);

/// The description "fits `c1` or fits `c2`".
pub fn or<T, C1, C2>(c1: C1, c2: C2) -> (r: Or<T, C1, C2>) where T: Similar<C1>, T: Similar<C2>
    ensures
        r.1 == c1,
        r.2 == c2,
{
    Or(PhantomData, c1, c2)
}

/// The message of two failed conditions.
pub open spec fn both_failed_text(m1: Seq<char>, m2: Seq<char>) -> Seq<char> {
    "both conditions failed: \n"@ + m1 + "\n"@ + m2
}

impl<To, C1, C2> Similar<Or<To, C1, C2>> for To where To: Similar<C1>, To: Similar<C2> {
    /// Both messages, each that of its condition.
    open spec fn fails_with(&self, condition: Or<To, C1, C2>, m: Seq<char>) -> bool {
        exists|m1: Seq<char>, m2: Seq<char>|
            #![trigger both_failed_text(m1, m2)]
            <To as Similar<C1>>::fails_with(self, condition.1, m1) && <To as Similar<
                C2,
            >>::fails_with(self, condition.2, m2) && m == both_failed_text(m1, m2)
    }

    open spec fn similar_spec(&self, condition: Or<To, C1, C2>) -> bool {
        <To as Similar<C1>>::similar_spec(self, condition.1) || <To as Similar<C2>>::similar_spec(
            self,
            condition.2,
        )
    }

    fn similar(&self, condition: Or<To, C1, C2>) -> (r: SimilarResult) {
        let c1 = <To as Similar<C1>>::similar(self, condition.1);
        let c2 = <To as Similar<C2>>::similar(self, condition.2);
        match (c1, c2) {
            (Ok(_), Ok(_)) => Ok(()),
            (Err(_), Ok(_)) => Ok(()),
            (Ok(_), Err(_)) => Ok(()),
            (Err(e1), Err(e2)) => {
                let mut msg = String::new();
                push_str(&mut msg, "both conditions failed: \n");
                push_str(&mut msg, e1.as_str());
                push_str(&mut msg, "\n");
                push_str(&mut msg, e2.as_str());
                assert(msg@ =~= both_failed_text(e1@, e2@));
                Err(msg)
            },
        }
    }
}

} // verus!
