use vstd::prelude::*;
use crate::debug_spec::DebugValue;
use crate::render::{debug_quoted, render, render_list, render_map};

verus! {

/// Why two values do not match, as a value.
pub enum MismatchKindValue {
    /// Keys of the expected map that the found map lacks.
    MissingKeys(Seq<Seq<char>>),
    /// Keys of the found map that the expected map lacks.
    ExtraKeys(Seq<Seq<char>>),
    /// Lists of different lengths: expected, found.
    Length(nat, nat),
    /// Names that differ: expected, found.
    Name(Seq<char>, Seq<char>),
    /// Texts that differ, or values of different shapes.
    Differs,
}

/// A mismatch, the path (`#`, `.key`, `[index]`) at which it was found, and the renderings
/// of the two values that differ there.
pub struct MismatchValue {
    pub path: Seq<char>,
    pub kind: MismatchKindValue,
    pub expected: Seq<char>,
    pub found: Seq<char>,
}

/// The mismatch of kind `kind` at `path`, between values rendered as `e` and `f`.
pub open spec fn mismatch(
    path: Seq<char>,
    kind: MismatchKindValue,
    e: Seq<char>,
    f: Seq<char>,
) -> Result<(), MismatchValue> {
    Err(MismatchValue { path, kind, expected: e, found: f })
}

/// Values of different shapes: each is shown in its compact rendering.
pub open spec fn shapes_differ(path: Seq<char>, e: DebugValue, f: DebugValue) -> Result<
    (),
    MismatchValue,
> {
    mismatch(path, MismatchKindValue::Differs, render(e), render(f))
}

/// The value of the first entry with key `k`, if any.
pub open spec fn lookup(e: Seq<(Seq<char>, DebugValue)>, k: Seq<char>) -> Option<DebugValue>
    decreases e.len(),
{
    if e.len() == 0 {
        None
    } else if e[0].0 == k {
        Some(e[0].1)
    } else {
        lookup(e.subrange(1, e.len() as int), k)
    }
}

/// The keys of `a` that `b` lacks, in the order of `a`.
pub open spec fn keys_not_in(
    a: Seq<(Seq<char>, DebugValue)>,
    b: Seq<(Seq<char>, DebugValue)>,
) -> Seq<Seq<char>>
    decreases a.len(),
{
    if a.len() == 0 {
        Seq::empty()
    } else {
        let rest = keys_not_in(a.subrange(1, a.len() as int), b);
        if lookup(b, a[0].0) is None {
            seq![a[0].0] + rest
        } else {
            rest
        }
    }
}

/// `path.key`
pub open spec fn key_path(path: Seq<char>, key: Seq<char>) -> Seq<char> {
    path + seq!['.'] + key
}

/// `path[i]`
pub open spec fn index_path(path: Seq<char>, i: nat) -> Seq<char> {
    path + seq!['['] + crate::text::decimal(i) + seq![']']
}

/// Checks `expect` against `found` value by value: maps by key (the keys of both must be
/// the same), lists item by item (two one-item lists are compared by their items, whatever
/// the rest), names and texts exactly. The first mismatch met is reported.
pub open spec fn check(
    expect: DebugValue,
    found: DebugValue,
    path: Seq<char>,
) -> Result<(), MismatchValue>
    decreases expect, 0nat,
{
    match expect {
        DebugValue::Entries(a) => match found {
            DebugValue::Entries(b) => match check_entries_from(a, a, b, path) {
                Err(m) => Err(m),
                Ok(()) => {
                    let extra = keys_not_in(b, a);
                    if extra.len() > 0 {
                        mismatch(
                            path,
                            MismatchKindValue::ExtraKeys(extra),
                            render_map(a),
                            render_map(b),
                        )
                    } else {
                        Ok(())
                    }
                },
            },
            _ => shapes_differ(path, expect, found),
        },
        DebugValue::List(x) => match found {
            DebugValue::List(y) => if x.len() == 1 && y.len() == 1 {
                check(x[0], y[0], path)
            } else if x.len() != y.len() {
                mismatch(
                    path,
                    MismatchKindValue::Length(x.len(), y.len()),
                    render_list(x),
                    render_list(y),
                )
            } else {
                check_items(x, y, 0, path)
            },
            _ => shapes_differ(path, expect, found),
        },
        DebugValue::Named(n, inner) => match found {
            DebugValue::Named(n2, inner2) => if n != n2 {
                mismatch(path, MismatchKindValue::Name(n, n2), render(*inner), render(*inner2))
            } else {
                check(*inner, *inner2, path)
            },
            _ => shapes_differ(path, expect, found),
        },
        DebugValue::Text(t) => match found {
            DebugValue::Text(t2) => if t == t2 {
                Ok(())
            } else {
                mismatch(path, MismatchKindValue::Differs, debug_quoted(t), debug_quoted(t2))
            },
            _ => shapes_differ(path, expect, found),
        },
        DebugValue::Other(t) => match found {
            DebugValue::Other(t2) => if t == t2 {
                Ok(())
            } else {
                mismatch(path, MismatchKindValue::Differs, debug_quoted(t), debug_quoted(t2))
            },
            _ => shapes_differ(path, expect, found),
        },
    }
}

/// The entries of `a`, from the first on, checked against those of `b`: each key of `a` must
/// be found in `b`, else the keys of the whole expected map `whole` that `b` lacks are reported.
pub open spec fn check_entries_from(
    whole: Seq<(Seq<char>, DebugValue)>,
    a: Seq<(Seq<char>, DebugValue)>,
    b: Seq<(Seq<char>, DebugValue)>,
    path: Seq<char>,
) -> Result<(), MismatchValue>
    decreases a, 0nat,
{
    if a.len() == 0 {
        Ok(())
    } else {
        match lookup(b, a[0].0) {
            Some(v) => match check(a[0].1, v, key_path(path, a[0].0)) {
                Err(m) => Err(m),
                Ok(()) => check_entries_from(whole, a.subrange(1, a.len() as int), b, path),
            },
            None => mismatch(
                path,
                MismatchKindValue::MissingKeys(keys_not_in(whole, b)),
                render_map(whole),
                render_map(b),
            ),
        }
    }
}

/// The items of `x` from index `i` on, checked against those of `y` (of the same length).
pub open spec fn check_items(
    x: Seq<DebugValue>,
    y: Seq<DebugValue>,
    i: nat,
    path: Seq<char>,
) -> Result<(), MismatchValue>
    decreases x, x.len() - i,
{
    if i >= x.len() {
        Ok(())
    } else {
        match check(x[i as int], y[i as int], index_path(path, i)) {
            Err(m) => Err(m),
            Ok(()) => check_items(x, y, i + 1, path),
        }
    }
}

} // verus!
