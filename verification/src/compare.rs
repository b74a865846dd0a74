use vstd::prelude::*;
use crate::compare_spec::{
    check, check_entries_from, check_items, index_path, key_path, keys_not_in, lookup,
    shapes_differ, MismatchKindValue, MismatchValue,
};
use crate::render::{list_text, map_text, quoted_text};
use vstd::std_specs::cmp::PartialEqSpecImpl;
use crate::debug_output::{entries_of, lemma_entries_of, lemma_values_of, values_of, DebugOutput};
use crate::debug_spec::DebugValue;
use crate::text::{push_decimal, push_str, string_push};

verus! {

/// Why a value did not match the expected one.
#[derive(Debug, PartialEq)]
pub enum MismatchKind {
    /// Keys of the expected map that the found map lacks.
    MissingKeys(Vec<String>),
    /// Keys of the found map that the expected map lacks.
    ExtraKeys(Vec<String>),
    /// Lists of different lengths: expected, found.
    Length(usize, usize),
    /// Names (of types or variants) that differ: expected, found.
    Name(String, String),
    /// Texts that differ, or values of different shapes.
    Differs,
}

/// A mismatch, the path (`#`, then `.key` and `[index]` steps) at which it was found, and
/// the renderings of the two values that differ there.
#[derive(Debug, PartialEq)]
pub struct Mismatch {
    pub path: String,
    pub kind: MismatchKind,
    pub expected: String,
    pub found: String,
}

pub open spec fn texts_of(v: Seq<String>) -> Seq<Seq<char>> {
    v.map_values(|s: String| s@)
}

impl MismatchKind {
    pub open spec fn value(self) -> MismatchKindValue {
        match self {
            MismatchKind::MissingKeys(k) => MismatchKindValue::MissingKeys(texts_of(k@)),
            MismatchKind::ExtraKeys(k) => MismatchKindValue::ExtraKeys(texts_of(k@)),
            MismatchKind::Length(a, b) => MismatchKindValue::Length(a as nat, b as nat),
            MismatchKind::Name(a, b) => MismatchKindValue::Name(a@, b@),
            MismatchKind::Differs => MismatchKindValue::Differs,
        }
    }
}

impl Mismatch {
    pub open spec fn value(self) -> MismatchValue {
        MismatchValue {
            path: self.path@,
            kind: self.kind.value(),
            expected: self.expected@,
            found: self.found@,
        }
    }
}

/// The value of a comparison's outcome.
pub open spec fn outcome(r: Result<(), Mismatch>) -> Result<(), MismatchValue> {
    match r {
        Ok(()) => Ok(()),
        Err(m) => Err(m.value()),
    }
}

pub proof fn lemma_lookup_skip(e: Seq<(Seq<char>, DebugValue)>, k: Seq<char>, i: int)
    requires
        0 <= i <= e.len(),
        forall|j: int| 0 <= j < i ==> e[j].0 != k,
    ensures
        lookup(e, k) == lookup(e.subrange(i, e.len() as int), k),
    decreases i,
{
    if i > 0 {
        assert(e.subrange(1, e.len() as int).subrange(i - 1, e.len() - 1) =~= e.subrange(
            i,
            e.len() as int,
        ));
        lemma_lookup_skip(e.subrange(1, e.len() as int), k, i - 1);
    } else {
        assert(e.subrange(0, e.len() as int) =~= e);
    }
}

/// The index of the first entry with key `k`, if any.
fn find_key(b: &Vec<(String, DebugOutput)>, k: &String) -> (r: Option<usize>)
    ensures
        match r {
            Some(j) => j < b.len() && b@[j as int].0@ == k@ && lookup(entries_of(b@), k@) == Some(
                b@[j as int].1.value(),
            ),
            None => lookup(entries_of(b@), k@) is None,
        },
{
    let ghost e = entries_of(b@);
    proof {
        lemma_entries_of(b@);
    }
    let mut j: usize = 0;
    while j < b.len()
        invariant
            j <= b.len(),
            e == entries_of(b@),
            e.len() == b.len(),
            forall|i: int| 0 <= i < b.len() ==> #[trigger] e[i] == (b@[i].0@, b@[i].1.value()),
            forall|i: int| 0 <= i < j ==> e[i].0 != k@,
        decreases b.len() - j,
    {
        if b[j].0 == *k {
            proof {
                lemma_lookup_skip(e, k@, j as int);
            }
            return Some(j);
        }
        j = j + 1;
    }
    proof {
        lemma_lookup_skip(e, k@, b.len() as int);
    }
    None
}

/// The keys of `a` that `b` lacks, in the order of `a`.
fn missing_keys(a: &Vec<(String, DebugOutput)>, b: &Vec<(String, DebugOutput)>) -> (r: Vec<
    String,
>)
    ensures
        texts_of(r@) == keys_not_in(entries_of(a@), entries_of(b@)),
{
    let ghost ea = entries_of(a@);
    let ghost eb = entries_of(b@);
    proof {
        lemma_entries_of(a@);
    }
    let mut out: Vec<String> = Vec::new();
    let mut i: usize = a.len();
    assert(ea.subrange(a.len() as int, a.len() as int) =~= Seq::<(Seq<char>, DebugValue)>::empty());
    while i > 0
        invariant
            i <= a.len(),
            ea == entries_of(a@),
            eb == entries_of(b@),
            ea.len() == a.len(),
            forall|j: int| 0 <= j < a.len() ==> #[trigger] ea[j] == (a@[j].0@, a@[j].1.value()),
            texts_of(out@) == keys_not_in(ea.subrange(i as int, a.len() as int), eb),
        decreases i,
    {
        i = i - 1;
        let ghost tail = ea.subrange(i as int, a.len() as int);
        assert(tail.subrange(1, tail.len() as int) =~= ea.subrange(i + 1, a.len() as int));
        let found = find_key(b, &a[i].0);
        if found.is_none() {
            let k = a[i].0.clone();
            let ghost old_out = out@;
            out.insert(0, k);
            assert(texts_of(out@) =~= seq![k@] + texts_of(old_out));
        }
    }
    assert(ea.subrange(0, a.len() as int) =~= ea);
    out
}

/// `path.key`
fn key_path_string(path: &String, key: &String) -> (r: String)
    ensures
        r@ == key_path(path@, key@),
{
    let mut p = path.clone();
    string_push(&mut p, '.');
    push_str(&mut p, key.as_str());
    p
}

/// `path[i]`
fn index_path_string(path: &String, i: usize) -> (r: String)
    ensures
        r@ == index_path(path@, i as nat),
{
    let mut p = path.clone();
    string_push(&mut p, '[');
    push_decimal(&mut p, i as u64);
    string_push(&mut p, ']');
    assert(p@ =~= index_path(path@, i as nat));
    p
}

/// The mismatch of two values of different shapes, each shown in its compact rendering.
fn shapes_mismatch(expect: &DebugOutput, to_be: &DebugOutput, path: String) -> (r: Mismatch)
    ensures
        Err::<(), MismatchValue>(r.value()) == shapes_differ(path@, expect.value(), to_be.value()),
{
    Mismatch {
        path,
        kind: MismatchKind::Differs,
        expected: expect.debug_string(),
        found: to_be.debug_string(),
    }
}

/// Compares the value `to_be` was found to be against the `expect`ed one, value by value,
/// and reports the first mismatch with its path.
pub fn value_to_be(expect: &DebugOutput, to_be: &DebugOutput, path: String) -> (r: Result<
    (),
    Mismatch,
>)
    ensures
        outcome(r) == check(expect.value(), to_be.value(), path@),
    decreases expect,
{
    match expect {
        DebugOutput::Entries(a) => {
            match to_be {
                DebugOutput::Entries(b) => {
                    let ghost ea = entries_of(a@);
                    let ghost eb = entries_of(b@);
                    proof {
                        lemma_entries_of(a@);
                    }
                    let mut i: usize = 0;
                    assert(ea.subrange(0, ea.len() as int) =~= ea);
                    #[verifier::loop_isolation(false)]
                    while i < a.len()
                        invariant
                            i <= a.len(),
                            ea == entries_of(a@),
                            eb == entries_of(b@),
                            ea.len() == a.len(),
                            forall|j: int|
                                0 <= j < a.len() ==> #[trigger] ea[j] == (a@[j].0@, a@[j].1.value()),
                            check_entries_from(ea, ea.subrange(i as int, a.len() as int), eb, path@)
                                == check_entries_from(ea, ea, eb, path@),
                        decreases a.len() - i,
                    {
                        let ghost tail = ea.subrange(i as int, a.len() as int);
                        assert(tail.subrange(1, tail.len() as int) =~= ea.subrange(
                            i + 1,
                            a.len() as int,
                        ));
                        let found = find_key(b, &a[i].0);
                        match found {
                            Some(j) => {
                                let p = key_path_string(&path, &a[i].0);
                                let res = value_to_be(&a[i].1, &b[j].1, p);
                                match res {
                                    Err(m) => {
                                        return Err(m);
                                    },
                                    Ok(()) => {},
                                }
                            },
                            None => {
                                let missing = missing_keys(a, b);
                                return Err(
                                    Mismatch {
                                        path,
                                        kind: MismatchKind::MissingKeys(missing),
                                        expected: map_text(a),
                                        found: map_text(b),
                                    },
                                );
                            },
                        }
                        i = i + 1;
                    }
                    assert(ea.subrange(a.len() as int, a.len() as int).len() == 0);
                    let extra = missing_keys(b, a);
                    if extra.len() > 0 {
                        Err(
                            Mismatch {
                                path,
                                kind: MismatchKind::ExtraKeys(extra),
                                expected: map_text(a),
                                found: map_text(b),
                            },
                        )
                    } else {
                        Ok(())
                    }
                },
                _ => Err(shapes_mismatch(expect, to_be, path)),
            }
        },
        DebugOutput::Vec(x) => {
            match to_be {
                DebugOutput::Vec(y) => {
                    proof {
                        lemma_values_of(x@);
                        lemma_values_of(y@);
                    }
                    if x.len() == 1 && y.len() == 1 {
                        // maybe it is a newtype
                        return value_to_be(&x[0], &y[0], path);
                    }
                    if x.len() != y.len() {
                        return Err(
                            Mismatch {
                                path,
                                kind: MismatchKind::Length(x.len(), y.len()),
                                expected: list_text(x),
                                found: list_text(y),
                            },
                        );
                    }
                    let ghost xv = values_of(x@);
                    let ghost yv = values_of(y@);
                    let mut i: usize = 0;
                    #[verifier::loop_isolation(false)]
                    while i < x.len()
                        invariant
                            i <= x.len(),
                            x.len() == y.len(),
                            xv == values_of(x@),
                            yv == values_of(y@),
                            xv.len() == x.len(),
                            yv.len() == y.len(),
                            forall|j: int| 0 <= j < x.len() ==> #[trigger] xv[j] == x@[j].value(),
                            forall|j: int| 0 <= j < y.len() ==> #[trigger] yv[j] == y@[j].value(),
                            check_items(xv, yv, i as nat, path@) == check_items(xv, yv, 0, path@),
                        decreases x.len() - i,
                    {
                        let p = index_path_string(&path, i);
                        let res = value_to_be(&x[i], &y[i], p);
                        match res {
                            Err(m) => {
                                return Err(m);
                            },
                            Ok(()) => {},
                        }
                        i = i + 1;
                    }
                    Ok(())
                },
                _ => Err(shapes_mismatch(expect, to_be, path)),
            }
        },
        DebugOutput::Named(name, inner) => {
            match to_be {
                DebugOutput::Named(name2, inner2) => {
                    if *name != *name2 {
                        return Err(
                            Mismatch {
                                path,
                                kind: MismatchKind::Name(name.clone(), name2.clone()),
                                expected: inner.debug_string(),
                                found: inner2.debug_string(),
                            },
                        );
                    }
                    value_to_be(&**inner, &**inner2, path)
                },
                _ => Err(shapes_mismatch(expect, to_be, path)),
            }
        },
        DebugOutput::String(t) => {
            match to_be {
                DebugOutput::String(t2) => {
                    if *t == *t2 {
                        Ok(())
                    } else {
                        Err(
                            Mismatch {
                                path,
                                kind: MismatchKind::Differs,
                                expected: quoted_text(t.as_str()),
                                found: quoted_text(t2.as_str()),
                            },
                        )
                    }
                },
                _ => Err(shapes_mismatch(expect, to_be, path)),
            }
        },
        DebugOutput::Other(t) => {
            match to_be {
                DebugOutput::Other(t2) => {
                    if *t == *t2 {
                        Ok(())
                    } else {
                        Err(
                            Mismatch {
                                path,
                                kind: MismatchKind::Differs,
                                expected: quoted_text(t.as_str()),
                                found: quoted_text(t2.as_str()),
                            },
                        )
                    }
                },
                _ => Err(shapes_mismatch(expect, to_be, path)),
            }
        },
    }
}

} // verus!

verus! {

/// `items` joined by `sep`.
pub open spec fn join(items: Seq<Seq<char>>, sep: Seq<char>) -> Seq<char>
    decreases items.len(),
{
    if items.len() == 0 {
        Seq::empty()
    } else if items.len() == 1 {
        items[0]
    } else {
        join(items.subrange(0, items.len() - 1), sep) + sep + items[items.len() - 1]
    }
}

/// Each item quoted as `{:?}` quotes a string.
pub open spec fn quote_all(items: Seq<Seq<char>>) -> Seq<Seq<char>> {
    items.map_values(|s: Seq<char>| crate::render::debug_quoted(s))
}

/// The text of a mismatch, as the failure message gives it.
pub open spec fn mismatch_message(m: MismatchValue) -> Seq<char> {
    m.path + match m.kind {
        MismatchKindValue::MissingKeys(k) => " has missing key(s) \n missing: ("@ + join(k, ", "@)
            + ")"@,
        MismatchKindValue::ExtraKeys(k) => " some keys were not expected \n   extra: ["@ + join(
            quote_all(k),
            ", "@,
        ) + "]"@,
        MismatchKindValue::Length(a, b) => " is an array with different lengths\n  length: expected "@
            + crate::text::decimal(a) + " but found to be "@ + crate::text::decimal(b),
        MismatchKindValue::Name(a, b) => " type failure\n    type: expected "@
            + crate::render::debug_quoted(a) + " found "@ + crate::render::debug_quoted(b),
        MismatchKindValue::Differs => " failed"@,
    } + "\nexpected: "@ + m.expected + "\n   found: "@ + m.found
}

/// Appends `items` joined by `sep`, each quoted where `quote` is set.
fn push_joined(s: &mut String, items: &Vec<String>, sep: &str, quote: bool)
    ensures
        final(s)@ == old(s)@ + join(
            if quote {
                quote_all(texts_of(items@))
            } else {
                texts_of(items@)
            },
            sep@,
        ),
{
    let ghost all = if quote {
        quote_all(texts_of(items@))
    } else {
        texts_of(items@)
    };
    let mut i: usize = 0;
    assert(all.subrange(0, 0) =~= Seq::<Seq<char>>::empty());
    while i < items.len()
        invariant
            i <= items.len(),
            all.len() == items.len(),
            all == (if quote {
                quote_all(texts_of(items@))
            } else {
                texts_of(items@)
            }),
            s@ == old(s)@ + join(all.subrange(0, i as int), sep@),
        decreases items.len() - i,
    {
        let ghost before = s@;
        if i > 0 {
            push_str(s, sep);
        }
        if quote {
            let q = crate::render::quoted_text(items[i].as_str());
            push_str(s, q.as_str());
        } else {
            push_str(s, items[i].as_str());
        }
        proof {
            let sub = all.subrange(0, i + 1);
            assert(sub.subrange(0, i as int) =~= all.subrange(0, i as int));
            if i == 0 {
                assert(s@ =~= old(s)@ + join(sub, sep@));
            } else {
                assert(s@ =~= old(s)@ + join(sub, sep@));
            }
        }
        i = i + 1;
    }
    assert(all.subrange(0, items.len() as int) =~= all);
}

impl Mismatch {
    /// The failure message (see `mismatch_message`).
    pub fn message(&self) -> (r: String)
        ensures
            r@ == mismatch_message(self.value()),
    {
        let mut s = self.path.clone();
        match &self.kind {
            MismatchKind::MissingKeys(k) => {
                push_str(&mut s, " has missing key(s) \n missing: (");
                push_joined(&mut s, k, ", ", false);
                push_str(&mut s, ")");
            },
            MismatchKind::ExtraKeys(k) => {
                push_str(&mut s, " some keys were not expected \n   extra: [");
                push_joined(&mut s, k, ", ", true);
                push_str(&mut s, "]");
            },
            MismatchKind::Length(a, b) => {
                push_str(&mut s, " is an array with different lengths\n  length: expected ");
                push_decimal(&mut s, *a as u64);
                push_str(&mut s, " but found to be ");
                push_decimal(&mut s, *b as u64);
            },
            MismatchKind::Name(a, b) => {
                push_str(&mut s, " type failure\n    type: expected ");
                let qa = crate::render::quoted_text(a.as_str());
                push_str(&mut s, qa.as_str());
                push_str(&mut s, " found ");
                let qb = crate::render::quoted_text(b.as_str());
                push_str(&mut s, qb.as_str());
            },
            MismatchKind::Differs => {
                push_str(&mut s, " failed");
            },
        }
        push_str(&mut s, "\nexpected: ");
        push_str(&mut s, self.expected.as_str());
        push_str(&mut s, "\n   found: ");
        push_str(&mut s, self.found.as_str());
        assert(s@ =~= mismatch_message(self.value()));
        s
    }
}

} // verus!

verus! {

/// Why two `Debug` renderings did not compare equal.
#[derive(Debug, PartialEq)]
pub enum DebugCompareError {
    /// One of the two renderings could not be read back.
    Unreadable,
    /// The values read back differ.
    Mismatch(Mismatch),
}

/// The outcome of `compare_debug`, as a value.
pub open spec fn compare_debug_spec(expect: Seq<char>, to_be: Seq<char>) -> Option<
    Result<(), MismatchValue>,
> {
    match (crate::debug_spec::parse_debug(expect), crate::debug_spec::parse_debug(to_be)) {
        (Some(a), Some(b)) => Some(check(a, b, seq!['#'])),
        _ => None,
    }
}

/// Reads back the two `Debug` renderings and compares the values, from the root path `#`.
pub fn compare_debug(expect: &str, to_be: &str) -> (r: Result<(), DebugCompareError>)
    ensures
        compare_debug_spec(expect@, to_be@) == match r {
            Ok(()) => Some(Ok(())),
            Err(DebugCompareError::Mismatch(m)) => Some(Err(m.value())),
            Err(DebugCompareError::Unreadable) => None,
        },
{
    let e = crate::parse::try_str_to_debug(expect);
    let t = crate::parse::try_str_to_debug(to_be);
    match (e, t) {
        (Some(a), Some(b)) => {
            let mut path = String::new();
            string_push(&mut path, '#');
            assert(path@ =~= seq!['#']);
            match value_to_be(&a, &b, path) {
                Ok(()) => Ok(()),
                Err(m) => Err(DebugCompareError::Mismatch(m)),
            }
        },
        _ => Err(DebugCompareError::Unreadable),
    }
}

} // verus!

verus! {

impl PartialEq for DebugOutput {
    fn eq(&self, other: &DebugOutput) -> (r: bool) {
        value_to_be(self, other, String::new()).is_ok()
    }
}

impl PartialEqSpecImpl for DebugOutput {
    open spec fn obeys_eq_spec() -> bool {
        true
    }

    /// The same value: the comparison finds no mismatch.
    open spec fn eq_spec(&self, other: &DebugOutput) -> bool {
        check(self.value(), other.value(), Seq::empty()) is Ok
    }
}

} // verus!
