use vstd::prelude::*;
use crate::compare::{compare_debug, DebugCompareError};
use crate::pretty::{pretty, pretty_comapre_fn, pretty_compare};
use crate::text::push_str;
use vstd::std_specs::cmp::PartialEqSpec;

verus! {

/// A value under test.
pub struct Expect<T>(pub T);

/// The value `val` under test.
pub fn ts<'r, T: ?Sized>(val: &'r T) -> (r: Expect<&'r T>)
    ensures
        r.0 == val,
{
    Expect(val)
}

/// The value `val` under test.
pub fn expect<'r, T: ?Sized>(val: &'r T) -> (r: Expect<&'r T>)
    ensures
        r.0 == val,
{
    Expect(val)
}

/// Marker for comparisons that run asynchronously.
pub trait SimilarAsyc {

}

/// The verdict of a comparison: `Err` holds the failure message.
pub type SimilarResult = Result<(), String>;

/// Compares a value with what it is expected to be.
pub trait ToBe {
    type This: ?Sized;

    /// Whether `r` is a verdict that comparing the value with `other` may give.
    spec fn to_be_spec(&self, other: &Self::This, r: SimilarResult) -> bool;

    fn to_be(&self, other: &Self::This) -> (r: SimilarResult)
        ensures
            self.to_be_spec(other, r),
    ;
}

/// The message of a rendering that cannot be read back: a quoted string in it ends in a lone
/// backslash, where the reading unwraps a character that is not there.
pub open spec fn unreadable_text() -> Seq<char> {
    "called `Option::unwrap()` on a `None` value"@
}

/// The failure message of two unequal values with `Debug` renderings `expect` and `to_be`:
/// the first mismatch of the renderings read back and compared value by value; both
/// renderings where they read back alike; the unwrap failure of the reading where one does
/// not read back.
pub open spec fn debug_failure_text(expect: Seq<char>, to_be: Seq<char>) -> Seq<char> {
    match crate::compare::compare_debug_spec(expect, to_be) {
        Some(Err(m)) => crate::compare::mismatch_message(m),
        Some(Ok(())) => "expected: "@ + expect + "\n   to be: "@ + to_be,
        None => unreadable_text(),
    }
}

/// Whether `m` is the failure message of some two `Debug` renderings.
pub open spec fn debug_failure(m: Seq<char>) -> bool {
    exists|e: Seq<char>, t: Seq<char>| #[trigger] debug_failure_text(e, t) == m
}

/// A comparison of a value with a description `With` of what it should be.
pub trait Similar<With> {
    /// Whether the value fits the description.
    spec fn similar_spec(&self, other: With) -> bool;

    /// Whether `m` is a failure message that the comparison may give.
    spec fn fails_with(&self, other: With, m: Seq<char>) -> bool;

    fn similar(&self, other: With) -> (r: SimilarResult)
        ensures
            r is Ok <==> self.similar_spec(other),
            r matches Err(m) ==> self.fails_with(other, m@),
    ;
}

/// `{:?}` of a value (its `Debug` rendering).
#[verifier::external_body]
fn debug_text<T: core::fmt::Debug + ?Sized>(v: &T) -> String {
    format!("{:?}", v)
}

/// The message of a failed text comparison: both texts in pretty form, quoted.
pub open spec fn pretty_failure_text(expect: Seq<char>, to_be: Seq<char>) -> Seq<char> {
    "assertion `left == right` failed\n  left: "@ + crate::render::debug_quoted(pretty(expect))
        + "\n right: "@ + crate::render::debug_quoted(pretty(to_be))
}

/// The message of a failed text comparison (see `pretty_failure_text`).
fn pretty_failure(expect: &str, to_be: &str) -> (r: String)
    ensures
        r@ == pretty_failure_text(expect@, to_be@),
{
    let e = pretty_comapre_fn(expect);
    let t = pretty_comapre_fn(to_be);
    let mut s = String::new();
    push_str(&mut s, "assertion `left == right` failed\n  left: ");
    let qe = crate::render::quoted_text(e.as_str());
    push_str(&mut s, qe.as_str());
    push_str(&mut s, "\n right: ");
    let qt = crate::render::quoted_text(t.as_str());
    push_str(&mut s, qt.as_str());
    assert(s@ =~= pretty_failure_text(expect@, to_be@));
    s
}

impl Similar<&'static str> for str {
    open spec fn similar_spec(&self, other: &'static str) -> bool {
        pretty(self@) == pretty(other@)
    }

    open spec fn fails_with(&self, other: &'static str, m: Seq<char>) -> bool {
        m == pretty_failure_text(self@, other@)
    }

    fn similar(&self, other: &'static str) -> (r: SimilarResult) {
        if pretty_compare(self, other) {
            Ok(())
        } else {
            Err(pretty_failure(self, other))
        }
    }
}

impl Similar<&'static str> for String {
    open spec fn similar_spec(&self, other: &'static str) -> bool {
        pretty(self@) == pretty(other@)
    }

    open spec fn fails_with(&self, other: &'static str, m: Seq<char>) -> bool {
        m == pretty_failure_text(self@, other@)
    }

    fn similar(&self, other: &'static str) -> (r: SimilarResult) {
        if pretty_compare(self.as_str(), other) {
            Ok(())
        } else {
            Err(pretty_failure(self.as_str(), other))
        }
    }
}

impl<'r, T: ?Sized> Expect<&'r T> {
    /// Checks the value against the description `to`; hands the value back where it fits,
    /// the failure message where it does not.
    pub fn similar<To>(self, to: To) -> (r: Result<Self, String>) where T: Similar<To>
        ensures
            r is Ok <==> self.0.similar_spec(to),
            r matches Err(m) ==> self.0.fails_with(to, m@),
            r matches Ok(e) ==> e == self,
    {
        match self.0.similar(to) {
            Ok(_) => Ok(self),
            Err(err) => Err(err),
        }
    }
}

/// The failure message of two unequal values, from their `Debug` renderings (see
/// `debug_failure_text`).
fn unequal_message(expect: String, to_be: String) -> (r: String)
    ensures
        r@ == debug_failure_text(expect@, to_be@),
{
    match compare_debug(expect.as_str(), to_be.as_str()) {
        Err(DebugCompareError::Mismatch(m)) => m.message(),
        Err(DebugCompareError::Unreadable) => {
            crate::text::string_of("called `Option::unwrap()` on a `None` value")
        },
        Ok(()) => {
            let mut msg = String::new();
            push_str(&mut msg, "expected: ");
            push_str(&mut msg, expect.as_str());
            push_str(&mut msg, "\n   to be: ");
            push_str(&mut msg, to_be.as_str());
            msg
        },
    }
}

impl<T: core::fmt::Debug + PartialEq> ToBe for T {
    type This = T;

    /// Equal values pass and unequal ones fail, with the message of their `Debug` renderings.
    open spec fn to_be_spec(&self, other: &T, r: SimilarResult) -> bool {
        &&& T::obeys_eq_spec() ==> (r is Ok <==> self.eq_spec(other))
        &&& r matches Err(m) ==> debug_failure(m@)
    }

    /// Equal values pass; otherwise their `Debug` renderings are read back and compared
    /// value by value, and the first difference is reported.
    fn to_be(&self, other: &T) -> (r: SimilarResult) {
        if self.eq(other) {
            return Ok(());
        }
        let e = debug_text(self);
        let t = debug_text(other);
        let m = unequal_message(e, t);
        assert(debug_failure_text(e@, t@) == m@);
        Err(m)
    }
}

impl<'r, T: ToBe> ToBe for Expect<&'r T> {
    type This = T::This;

    /// The verdicts of the value under test.
    open spec fn to_be_spec(&self, other: &T::This, r: SimilarResult) -> bool {
        self.0.to_be_spec(other, r)
    }

    fn to_be(&self, other: &T::This) -> SimilarResult {
        self.0.to_be(other)
    }
}

/// How a displayed text is compared with the expected one.
pub trait DisplaySpec {
    /// Whether `expect` agrees with `to_be`.
    spec fn agrees(&self, expect: Seq<char>, to_be: Seq<char>) -> bool;

    fn compare(&self, expect: &str, to_be: &'static str) -> (r: bool)
        ensures
            r == self.agrees(expect@, to_be@),
    ;
}

/// `()`: the comparison that ignores how whitespace is laid out (see `pretty`).
impl DisplaySpec for () {
    open spec fn agrees(&self, expect: Seq<char>, to_be: Seq<char>) -> bool {
        pretty(expect) == pretty(to_be)
    }

    fn compare(&self, expect: &str, to_be: &'static str) -> (r: bool) {
        pretty_compare(expect, to_be)
    }
}

/// Whether `r` is what `displaying` gives where the value displays as `text`.
pub open spec fn displaying_verdict<S: DisplaySpec>(
    text: Seq<char>,
    to_be: Seq<char>,
    spec: S,
    r_ok: bool,
    r_err: Option<Seq<char>>,
) -> bool {
    &&& r_ok <==> spec.agrees(text, to_be)
    &&& r_err matches Some(m) ==> m == pretty_failure_text(text, to_be)
}

impl<'r, T: core::fmt::Display + ?Sized> Expect<&'r T> {
    /// Compares the value's displayed text (`to_string`) with `to_be` as `spec` says; hands the
    /// value back where they agree, a failure message where they do not.
    pub fn displaying<S: DisplaySpec>(self, to_be: &'static str, spec: S) -> (r: Result<
        Self,
        String,
    >)
        ensures
            exists|t: String|
                #[trigger] vstd::string::to_string_from_display_ensures::<T>(self.0, t)
                    && displaying_verdict(
                    t@,
                    to_be@,
                    spec,
                    r is Ok,
                    match r {
                        Ok(_) => None,
                        Err(m) => Some(m@),
                    },
                ),
            r matches Ok(e) ==> e == self,
    {
        let text = self.0.to_string();
        if spec.compare(text.as_str(), to_be) {
            Ok(self)
        } else {
            Err(pretty_failure(text.as_str(), to_be))
        }
    }
}

/// A displayed text that the value should agree with, and how.
pub struct DisplayingImplSimilar<Spec>(pub &'static str, pub Spec);

/// The description "displays as `val`, compared as `spec` says".
pub fn displaying<T: DisplaySpec>(val: &'static str, spec: T) -> (r: DisplayingImplSimilar<T>)
    ensures
        r.0 == val,
        r.1 == spec,
{
    DisplayingImplSimilar(val, spec)
}

impl<Spec: DisplaySpec> Similar<DisplayingImplSimilar<Spec>> for str {
    open spec fn fails_with(&self, other: DisplayingImplSimilar<Spec>, m: Seq<char>) -> bool {
        m == pretty_failure_text(self@, other.0@)
    }

    open spec fn similar_spec(&self, other: DisplayingImplSimilar<Spec>) -> bool {
        other.1.agrees(self@, other.0@)
    }

    fn similar(&self, other: DisplayingImplSimilar<Spec>) -> (r: SimilarResult) {
        if other.1.compare(self, other.0) {
            Ok(())
        } else {
            Err(pretty_failure(self, other.0))
        }
    }
}

/// The value should differ from the other.
pub struct NotToBe<T>(pub T);

/// The message of equal values, with the value's rendering `d`.
pub open spec fn equal_values_text(d: Seq<char>) -> Seq<char> {
    "values are equal, found: \n"@ + d
}

impl<'r, T: core::fmt::Debug + PartialEq> ToBe for NotToBe<&'r T> {
    type This = T;

    /// Differing values pass; equal ones fail with the value's rendering.
    open spec fn to_be_spec(&self, other: &T, r: SimilarResult) -> bool {
        &&& T::obeys_eq_spec() ==> (r is Err <==> (*self.0).eq_spec(other))
        &&& r matches Err(m) ==> exists|d: Seq<char>| m@ == #[trigger] equal_values_text(d)
    }

    fn to_be(&self, other: &T) -> (r: SimilarResult) {
        if self.0.eq(other) {
            let mut msg = String::new();
            push_str(&mut msg, "values are equal, found: \n");
            let d = debug_text(self.0);
            push_str(&mut msg, d.as_str());
            assert(msg@ =~= equal_values_text(d@));
            return Err(msg);
        }
        Ok(())
    }
}

/// The value should equal the other, compared as `assert_eq!` does.
pub struct DefaultToAssert<T>(pub T);

/// The message of unequal values, with their renderings `d` and `o`.
pub open spec fn assertion_failed_text(d: Seq<char>, o: Seq<char>) -> Seq<char> {
    "assertion failed \nexpected: "@ + d + "\n   to be: "@ + o
}

impl<'r, T: core::fmt::Debug + PartialEq> ToBe for DefaultToAssert<&'r T> {
    type This = T;

    /// Equal values pass; unequal ones fail with both renderings.
    open spec fn to_be_spec(&self, other: &T, r: SimilarResult) -> bool {
        &&& T::obeys_eq_spec() ==> (r is Ok <==> (*self.0).eq_spec(other))
        &&& r matches Err(m) ==> exists|d: Seq<char>, o: Seq<char>| m@ == #[trigger] assertion_failed_text(d, o)
    }

    fn to_be(&self, other: &T) -> (r: SimilarResult) {
        if !self.0.eq(other) {
            let mut msg = String::new();
            push_str(&mut msg, "assertion failed \nexpected: ");
            let d = debug_text(self.0);
            push_str(&mut msg, d.as_str());
            push_str(&mut msg, "\n   to be: ");
            let o = debug_text(other);
            push_str(&mut msg, o.as_str());
            assert(msg@ =~= assertion_failed_text(d@, o@));
            return Err(msg);
        }
        Ok(())
    }
}

/// The value should equal the other, compared by `Debug` renderings where they differ.
pub struct RelyOnDebug<T>(pub T);

impl<'r, T: core::fmt::Debug + PartialEq> ToBe for RelyOnDebug<&'r T> {
    type This = T;

    /// Equal values pass and unequal ones fail, with the message of their `Debug` renderings.
    open spec fn to_be_spec(&self, other: &T, r: SimilarResult) -> bool {
        &&& T::obeys_eq_spec() ==> (r is Ok <==> (*self.0).eq_spec(other))
        &&& r matches Err(m) ==> debug_failure(m@)
    }

    fn to_be(&self, other: &T) -> (r: SimilarResult) {
        if self.0.eq(other) {
            return Ok(());
        }
        let e = debug_text(self.0);
        let t = debug_text(other);
        let m = unequal_message(e, t);
        assert(debug_failure_text(e@, t@) == m@);
        Err(m)
    }
}

impl<'r, T: core::fmt::Debug + PartialEq> Expect<&'r T> {
    /// The value should differ from the other.
    pub fn not(self) -> (r: NotToBe<&'r T>)
        ensures
            r.0 == self.0,
    {
        NotToBe(self.0)
    }

    /// The value should equal the other, compared as `assert_eq!` does.
    pub fn default(self) -> (r: DefaultToAssert<&'r T>)
        ensures
            r.0 == self.0,
    {
        DefaultToAssert(self.0)
    }

    /// The value should equal the other, compared by `Debug` renderings.
    pub fn debug(self) -> (r: RelyOnDebug<&'r T>)
        ensures
            r.0 == self.0,
    {
        RelyOnDebug(self.0)
    }
}

/// Relying on `Debug` renderings decides as the plain comparison does: for a type whose
/// `==` obeys its spec, `debug().to_be` and `to_be` pass or fail on the same values.
pub proof fn law_debug_mode_agrees<T: core::fmt::Debug + PartialEq>(
    x: &T,
    y: &T,
    r1: SimilarResult,
    r2: SimilarResult,
)
    requires
        T::obeys_eq_spec(),
        <T as ToBe>::to_be_spec(x, y, r1),
        RelyOnDebug(x).to_be_spec(y, r2),
    ensures
        r1 is Ok <==> r2 is Ok,
{
}

} // verus!
