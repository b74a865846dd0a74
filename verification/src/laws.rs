use vstd::prelude::*;
use crate::compare::compare_debug_spec;
use crate::compare_spec::{
    check, check_entries_from, check_items, index_path, key_path, keys_not_in, lookup,
};
use crate::debug_spec::{entries_insert, map_items, parse_debug, seq_items, DebugValue};

verus! {

/// No key occurs twice.
pub open spec fn keys_distinct(e: Seq<(Seq<char>, DebugValue)>) -> bool {
    forall|i: int, j: int| 0 <= i < j < e.len() ==> e[i].0 != e[j].0
}

/// Every map in the value, at any depth, has distinct keys.
pub open spec fn well_formed(v: DebugValue) -> bool
    decreases v,
{
    match v {
        DebugValue::Entries(e) => keys_distinct(e) && forall|i: int|
            0 <= i < e.len() ==> well_formed(#[trigger] e[i].1),
        DebugValue::List(x) => forall|i: int| 0 <= i < x.len() ==> well_formed(#[trigger] x[i]),
        DebugValue::Named(_, b) => well_formed(*b),
        _ => true,
    }
}

proof fn lemma_insert_keeps(e: Seq<(Seq<char>, DebugValue)>, k: Seq<char>, v: DebugValue)
    requires
        keys_distinct(e),
        forall|i: int| 0 <= i < e.len() ==> well_formed(#[trigger] e[i].1),
        well_formed(v),
    ensures
        keys_distinct(entries_insert(e, k, v)),
        forall|i: int|
            0 <= i < entries_insert(e, k, v).len() ==> well_formed(
                #[trigger] entries_insert(e, k, v)[i].1,
            ),
        forall|i: int|
            0 <= i < entries_insert(e, k, v).len() ==> (entries_insert(e, k, v)[i].0 == k
                || exists|j: int| 0 <= j < e.len() && e[j].0 == #[trigger] entries_insert(e, k, v)[i].0),
    decreases e.len(),
{
    let r = entries_insert(e, k, v);
    if e.len() == 0 {
    } else if e[0].0 == k {
        assert(r =~= seq![(k, v)] + e.drop_first());
        assert forall|i: int| 0 <= i < r.len() implies (r[i].0 == k || exists|j: int|
            0 <= j < e.len() && e[j].0 == #[trigger] r[i].0) by {
            if i > 0 {
                assert(r[i] == e[i]);
            }
        }
        assert forall|i: int| 0 <= i < r.len() implies well_formed(#[trigger] r[i].1) by {
            if i > 0 {
                assert(r[i] == e[i]);
            }
        }
    } else {
        let t = e.drop_first();
        assert(keys_distinct(t)) by {
            assert forall|i: int, j: int| 0 <= i < j < t.len() implies t[i].0 != t[j].0 by {
                assert(t[i] == e[i + 1] && t[j] == e[j + 1]);
            }
        }
        assert forall|i: int| 0 <= i < t.len() implies well_formed(#[trigger] t[i].1) by {
            assert(t[i] == e[i + 1]);
        }
        lemma_insert_keeps(t, k, v);
        let rt = entries_insert(t, k, v);
        assert(r =~= seq![e[0]] + rt);
        assert forall|i: int| 0 <= i < r.len() implies (r[i].0 == k || exists|j: int|
            0 <= j < e.len() && e[j].0 == #[trigger] r[i].0) by {
            if i == 0 {
                assert(e[0].0 == r[0].0);
            } else {
                assert(r[i] == rt[i - 1]);
                if rt[i - 1].0 != k {
                    let j = choose|j: int| 0 <= j < t.len() && t[j].0 == rt[i - 1].0;
                    assert(e[j + 1].0 == r[i].0);
                }
            }
        }
        assert forall|i: int| 0 <= i < r.len() implies well_formed(#[trigger] r[i].1) by {
            if i == 0 {
            } else {
                assert(r[i] == rt[i - 1]);
            }
        }
        assert forall|i: int, j: int| 0 <= i < j < r.len() implies r[i].0 != r[j].0 by {
            if i == 0 {
                assert(r[j] == rt[j - 1]);
                if rt[j - 1].0 != k {
                    let m = choose|m: int| 0 <= m < t.len() && t[m].0 == rt[j - 1].0;
                    assert(e[m + 1].0 == rt[j - 1].0);
                }
            } else {
                assert(r[i] == rt[i - 1] && r[j] == rt[j - 1]);
            }
        }
    }
}

proof fn lemma_items_wf(
    close: char,
    rest: Seq<char>,
    val: Seq<char>,
    items: Seq<DebugValue>,
    budget: nat,
)
    requires
        forall|i: int| 0 <= i < items.len() ==> well_formed(#[trigger] items[i]),
    ensures
        seq_items(close, rest, val, items, budget) matches Some(x) ==> forall|i: int|
            0 <= i < x.len() ==> well_formed(#[trigger] x[i]),
    decreases budget, 0nat, rest.len(),
{
    if rest.len() > 0 {
        let next = rest[0];
        let (r, v) = crate::debug_spec::skip_all(next, rest.drop_first(), val);
        crate::debug_spec::lemma_skip_all(next, rest.drop_first(), val);
        if next == ' ' {
            lemma_items_wf(close, r, v, items, budget);
        } else if next == close || next == ',' {
            if crate::debug_spec::weight(v) < budget {
                law_parse_well_formed(v);
                match parse_debug(v) {
                    Some(x) => {
                        let items2 = items.push(x);
                        assert forall|i: int| 0 <= i < items2.len() implies well_formed(
                            #[trigger] items2[i],
                        ) by {
                            if i < items.len() {
                                assert(items2[i] == items[i]);
                            }
                        }
                        lemma_items_wf(close, r, Seq::empty(), items2, budget);
                    },
                    None => {},
                }
            }
        } else {
            lemma_items_wf(close, r, v.push(next), items, budget);
        }
    }
}

proof fn lemma_map_wf(
    rest: Seq<char>,
    key: Seq<char>,
    val: Seq<char>,
    into_key: bool,
    entries: Seq<(Seq<char>, DebugValue)>,
    budget: nat,
)
    requires
        keys_distinct(entries),
        forall|i: int| 0 <= i < entries.len() ==> well_formed(#[trigger] entries[i].1),
    ensures
        map_items(rest, key, val, into_key, entries, budget) matches Some(e) ==> keys_distinct(e)
            && forall|i: int| 0 <= i < e.len() ==> well_formed(#[trigger] e[i].1),
    decreases budget, 0nat, rest.len(),
{
    if rest.len() > 0 {
        let next = rest[0];
        let (r1, v1) = crate::debug_spec::skip_groups(next, rest.drop_first(), val);
        crate::debug_spec::lemma_skip_all(next, rest.drop_first(), val);
        if into_key && next == '"' {
            let (r2, k2) = crate::debug_spec::skip_key(r1, key);
            crate::debug_spec::lemma_skip_key_len(r1, key);
            lemma_map_wf(r2, k2, v1, false, entries, budget);
        } else {
            let (r2, v2) = if !into_key && next == '"' {
                crate::debug_spec::skip_quoted(r1, v1.push(next))
            } else {
                (r1, v1)
            };
            crate::debug_spec::lemma_skip_quoted_len(r1, v1.push(next));
            if next == ' ' {
                lemma_map_wf(r2, key, v2, into_key, entries, budget);
            } else if next == ':' {
                let r3 = if r2.len() > 0 && r2[0] == ' ' {
                    r2.drop_first()
                } else {
                    r2
                };
                lemma_map_wf(r3, key, v2, false, entries, budget);
            } else if next == '}' || next == ',' {
                if crate::debug_spec::weight(v2) < budget {
                    law_parse_well_formed(v2);
                    match parse_debug(v2) {
                        Some(x) => {
                            lemma_insert_keeps(entries, key, x);
                            lemma_map_wf(
                                r2,
                                Seq::empty(),
                                Seq::empty(),
                                true,
                                entries_insert(entries, key, x),
                                budget,
                            );
                        },
                        None => {},
                    }
                }
            } else if into_key {
                lemma_map_wf(r2, key.push(next), v2, into_key, entries, budget);
            } else {
                lemma_map_wf(r2, key, v2.push(next), into_key, entries, budget);
            }
        }
    }
}

/// What `str_to_debug` reads back is well formed: no map in it has a key twice.
pub proof fn law_parse_well_formed(s: Seq<char>)
    ensures
        parse_debug(s) matches Some(v) ==> well_formed(v),
    decreases crate::debug_spec::weight(s), 1nat, 0nat,
{
    if s.len() > 0 && s[0] == '"' {
    } else if s.len() > 0 && (s[0] == '(' || s[0] == '[') {
        let close = if s[0] == '(' {
            ')'
        } else {
            ']'
        };
        lemma_items_wf(
            close,
            s.drop_first(),
            Seq::empty(),
            Seq::empty(),
            crate::debug_spec::weight(s),
        );
    } else if s.len() > 0 && s[0] == '{' {
        lemma_map_wf(
            s.drop_first(),
            Seq::empty(),
            Seq::empty(),
            true,
            Seq::empty(),
            crate::debug_spec::weight(s),
        );
    } else {
        let (r, p, named) = crate::debug_spec::read_prefix(s, Seq::empty());
        if named {
            let r2 = if r.len() > 0 && r[0] == ' ' {
                r.drop_first()
            } else {
                r
            };
            if crate::debug_spec::weight(r2) < crate::debug_spec::weight(s) {
                law_parse_well_formed(r2);
            }
        }
    }
}


proof fn lemma_lookup_found(e: Seq<(Seq<char>, DebugValue)>, k: int)
    requires
        0 <= k < e.len(),
    ensures
        lookup(e, e[k].0) is Some,
        keys_distinct(e) ==> lookup(e, e[k].0) == Some(e[k].1),
    decreases e.len(),
{
    if e[0].0 != e[k].0 {
        let t = e.subrange(1, e.len() as int);
        assert(t[k - 1] == e[k]);
        lemma_lookup_found(t, k - 1);
        if keys_distinct(e) {
            assert forall|i: int, j: int| 0 <= i < j < t.len() implies t[i].0 != t[j].0 by {
                assert(t[i] == e[i + 1] && t[j] == e[j + 1]);
            }
        }
    } else if keys_distinct(e) && k != 0 {
        assert(e[0].0 != e[k].0);
    }
}

proof fn lemma_keys_not_in_empty(
    a: Seq<(Seq<char>, DebugValue)>,
    b: Seq<(Seq<char>, DebugValue)>,
)
    requires
        forall|i: int| 0 <= i < a.len() ==> #[trigger] lookup(b, a[i].0) is Some,
    ensures
        keys_not_in(a, b).len() == 0,
    decreases a.len(),
{
    if a.len() > 0 {
        let t = a.subrange(1, a.len() as int);
        assert forall|i: int| 0 <= i < t.len() implies #[trigger] lookup(b, t[i].0) is Some by {
            assert(t[i] == a[i + 1]);
            assert(lookup(b, a[i + 1].0) is Some);
        }
        assert(lookup(b, a[0].0) is Some);
        lemma_keys_not_in_empty(t, b);
    }
}

proof fn lemma_entries_refl(e: Seq<(Seq<char>, DebugValue)>, k: int, path: Seq<char>)
    requires
        0 <= k <= e.len(),
        keys_distinct(e),
        forall|j: int|
            0 <= j < e.len() ==> (#[trigger] check(e[j].1, e[j].1, key_path(path, e[j].0))) is Ok,
    ensures
        check_entries_from(e, e.subrange(k, e.len() as int), e, path) is Ok,
    decreases e.len() - k,
{
    let a = e.subrange(k, e.len() as int);
    if k < e.len() {
        assert(a[0] == e[k]);
        lemma_lookup_found(e, k);
        assert(check(e[k].1, e[k].1, key_path(path, e[k].0)) is Ok);
        assert(a.subrange(1, a.len() as int) =~= e.subrange(k + 1, e.len() as int));
        lemma_entries_refl(e, k + 1, path);
    }
}

proof fn lemma_items_refl(x: Seq<DebugValue>, i: nat, path: Seq<char>)
    requires
        forall|j: int|
            0 <= j < x.len() ==> (#[trigger] check(x[j], x[j], index_path(path, j as nat))) is Ok,
    ensures
        check_items(x, x, i, path) is Ok,
    decreases x.len() - i,
{
    if i < x.len() {
        let j: int = i as int;
        assert(check(x[j], x[j], index_path(path, j as nat)) is Ok);
        lemma_items_refl(x, i + 1, path);
    }
}

proof fn lemma_check_refl(v: DebugValue, path: Seq<char>)
    requires
        well_formed(v),
    ensures
        check(v, v, path) is Ok,
    decreases v,
{
    match v {
        DebugValue::Entries(e) => {
            assert forall|j: int| 0 <= j < e.len() implies (#[trigger] check(
                e[j].1,
                e[j].1,
                key_path(path, e[j].0),
            )) is Ok by {
                lemma_check_refl(e[j].1, key_path(path, e[j].0));
            }
            lemma_entries_refl(e, 0, path);
            assert(e.subrange(0, e.len() as int) =~= e);
            assert forall|i: int| 0 <= i < e.len() implies #[trigger] lookup(e, e[i].0) is Some by {
                lemma_lookup_found(e, i);
            }
            lemma_keys_not_in_empty(e, e);
        },
        DebugValue::List(x) => {
            if x.len() == 1 {
                lemma_check_refl(x[0], path);
            } else {
                assert forall|j: int| 0 <= j < x.len() implies (#[trigger] check(
                    x[j],
                    x[j],
                    index_path(path, j as nat),
                )) is Ok by {
                    lemma_check_refl(x[j], index_path(path, j as nat));
                }
                lemma_items_refl(x, 0, path);
            }
        },
        DebugValue::Named(n, inner) => {
            lemma_check_refl(*inner, path);
        },
        _ => {},
    }
}

/// Any text that `str_to_debug` reads compares equal to itself: `compare_debug(s, s)`
/// reports no mismatch.
pub proof fn law_compare_self(s: Seq<char>)
    ensures
        compare_debug_spec(s, s) matches Some(r) ==> r is Ok,
{
    law_parse_well_formed(s);
    if let Some(v) = parse_debug(s) {
        lemma_check_refl(v, seq!['#']);
    }
}


proof fn lemma_lookup_member(b: Seq<(Seq<char>, DebugValue)>, x: (Seq<char>, DebugValue))
    requires
        keys_distinct(b),
        b.contains(x),
    ensures
        lookup(b, x.0) == Some(x.1),
{
    let j = choose|j: int| 0 <= j < b.len() && b[j] == x;
    lemma_lookup_found(b, j);
}

proof fn lemma_entries_reordered(
    a: Seq<(Seq<char>, DebugValue)>,
    b: Seq<(Seq<char>, DebugValue)>,
    k: int,
    path: Seq<char>,
)
    requires
        0 <= k <= a.len(),
        keys_distinct(b),
        forall|i: int| 0 <= i < a.len() ==> b.contains(#[trigger] a[i]),
        forall|j: int|
            0 <= j < a.len() ==> (#[trigger] check(a[j].1, a[j].1, key_path(path, a[j].0))) is Ok,
    ensures
        check_entries_from(a, a.subrange(k, a.len() as int), b, path) is Ok,
    decreases a.len() - k,
{
    let s = a.subrange(k, a.len() as int);
    if k < a.len() {
        assert(s[0] == a[k]);
        assert(b.contains(a[k]));
        lemma_lookup_member(b, a[k]);
        assert(check(a[k].1, a[k].1, key_path(path, a[k].0)) is Ok);
        assert(s.subrange(1, s.len() as int) =~= a.subrange(k + 1, a.len() as int));
        lemma_entries_reordered(a, b, k + 1, path);
    }
}

/// Maps are compared by key: two maps with the same entries, in whatever order, compare
/// equal.
pub proof fn law_map_order(
    a: Seq<(Seq<char>, DebugValue)>,
    b: Seq<(Seq<char>, DebugValue)>,
    path: Seq<char>,
)
    requires
        well_formed(DebugValue::Entries(a)),
        keys_distinct(b),
        a.to_set() == b.to_set(),
    ensures
        check(DebugValue::Entries(a), DebugValue::Entries(b), path) is Ok,
{
    assert forall|i: int| 0 <= i < a.len() implies b.contains(#[trigger] a[i]) by {
        assert(a.to_set().contains(a[i]));
        assert(b.to_set().contains(a[i]));
    }
    assert forall|j: int| 0 <= j < a.len() implies (#[trigger] check(
        a[j].1,
        a[j].1,
        key_path(path, a[j].0),
    )) is Ok by {
        lemma_check_refl(a[j].1, key_path(path, a[j].0));
    }
    lemma_entries_reordered(a, b, 0, path);
    assert(a.subrange(0, a.len() as int) =~= a);
    assert forall|i: int| 0 <= i < b.len() implies #[trigger] lookup(a, b[i].0) is Some by {
        assert(b.to_set().contains(b[i]));
        assert(a.to_set().contains(b[i]));
        lemma_lookup_member(a, b[i]);
    }
    lemma_keys_not_in_empty(b, a);
}


proof fn lemma_lookup_some(e: Seq<(Seq<char>, DebugValue)>, k: Seq<char>)
    requires
        lookup(e, k) is Some,
    ensures
        exists|i: int| 0 <= i < e.len() && e[i].0 == k && #[trigger] e[i].1 == lookup(e, k)->0,
    decreases e.len(),
{
    if e[0].0 != k {
        let t = e.subrange(1, e.len() as int);
        lemma_lookup_some(t, k);
        let i = choose|i: int| 0 <= i < t.len() && t[i].0 == k && #[trigger] t[i].1 == lookup(t, k)->0;
        assert(e[i + 1] == t[i]);
    } else {
        assert(e[0].1 == lookup(e, k)->0);
    }
}

proof fn lemma_entries_ok(a: Seq<(Seq<char>, DebugValue)>, k: int, b: Seq<(Seq<char>, DebugValue)>, path: Seq<char>)
    requires
        0 <= k <= a.len(),
        check_entries_from(a, a.subrange(k, a.len() as int), b, path) is Ok,
    ensures
        forall|i: int|
            k <= i < a.len() ==> #[trigger] lookup(b, a[i].0) is Some && check(
                a[i].1,
                lookup(b, a[i].0)->0,
                key_path(path, a[i].0),
            ) is Ok,
    decreases a.len() - k,
{
    if k < a.len() {
        let t = a.subrange(k, a.len() as int);
        assert(t[0] == a[k]);
        assert(t.subrange(1, t.len() as int) =~= a.subrange(k + 1, a.len() as int));
        lemma_entries_ok(a, k + 1, b, path);
    }
}

proof fn lemma_entries_from_ok(a: Seq<(Seq<char>, DebugValue)>, k: int, b: Seq<(Seq<char>, DebugValue)>, path: Seq<char>)
    requires
        0 <= k <= a.len(),
        forall|i: int|
            k <= i < a.len() ==> #[trigger] lookup(b, a[i].0) is Some && check(
                a[i].1,
                lookup(b, a[i].0)->0,
                key_path(path, a[i].0),
            ) is Ok,
    ensures
        check_entries_from(a, a.subrange(k, a.len() as int), b, path) is Ok,
    decreases a.len() - k,
{
    if k < a.len() {
        let t = a.subrange(k, a.len() as int);
        assert(t[0] == a[k]);
        assert(lookup(b, a[k].0) is Some);
        assert(t.subrange(1, t.len() as int) =~= a.subrange(k + 1, a.len() as int));
        lemma_entries_from_ok(a, k + 1, b, path);
    }
}

proof fn lemma_keys_not_in_found(a: Seq<(Seq<char>, DebugValue)>, b: Seq<(Seq<char>, DebugValue)>)
    requires
        keys_not_in(a, b).len() == 0,
    ensures
        forall|i: int| 0 <= i < a.len() ==> #[trigger] lookup(b, a[i].0) is Some,
    decreases a.len(),
{
    if a.len() > 0 {
        let t = a.subrange(1, a.len() as int);
        lemma_keys_not_in_found(t, b);
        assert forall|i: int| 0 <= i < a.len() implies #[trigger] lookup(b, a[i].0) is Some by {
            if i > 0 {
                assert(a[i] == t[i - 1]);
            }
        }
    }
}

proof fn lemma_items_ok(x: Seq<DebugValue>, y: Seq<DebugValue>, i: nat, path: Seq<char>)
    requires
        check_items(x, y, i, path) is Ok,
    ensures
        forall|j: int| i <= j < x.len() ==> (#[trigger] check(x[j], y[j], index_path(path, j as nat))) is Ok,
    decreases x.len() - i,
{
    if i < x.len() {
        lemma_items_ok(x, y, i + 1, path);
        assert forall|j: int| i <= j < x.len() implies (#[trigger] check(x[j], y[j], index_path(path, j as nat))) is Ok by {
            if j == i {
                let k: int = i as int;
                assert(k as nat == i);
            }
        }
    }
}

proof fn lemma_items_from_ok(x: Seq<DebugValue>, y: Seq<DebugValue>, i: nat, path: Seq<char>)
    requires
        forall|j: int| i <= j < x.len() ==> (#[trigger] check(x[j], y[j], index_path(path, j as nat))) is Ok,
    ensures
        check_items(x, y, i, path) is Ok,
    decreases x.len() - i,
{
    if i < x.len() {
        let k: int = i as int;
        assert(check(x[k], y[k], index_path(path, k as nat)) is Ok);
        lemma_items_from_ok(x, y, i + 1, path);
    }
}

proof fn lemma_check_sym(a: DebugValue, b: DebugValue, path: Seq<char>)
    requires
        well_formed(a),
        well_formed(b),
        check(a, b, path) is Ok,
    ensures
        check(b, a, path) is Ok,
    decreases a,
{
    match a {
        DebugValue::Entries(ea) => {
            let eb = b->Entries_0;
            assert(check_entries_from(ea, ea, eb, path) is Ok);
            assert(ea.subrange(0, ea.len() as int) =~= ea);
            lemma_entries_ok(ea, 0, eb, path);
            lemma_keys_not_in_found(eb, ea);
            assert forall|j: int| 0 <= j < eb.len() implies #[trigger] lookup(ea, eb[j].0) is Some
                && check(eb[j].1, lookup(ea, eb[j].0)->0, key_path(path, eb[j].0)) is Ok by {
                lemma_lookup_some(ea, eb[j].0);
                let i = choose|i: int|
                    0 <= i < ea.len() && ea[i].0 == eb[j].0 && #[trigger] ea[i].1 == lookup(
                        ea,
                        eb[j].0,
                    )->0;
                lemma_lookup_found(eb, j);
                assert(lookup(eb, ea[i].0) is Some);
                assert(check(ea[i].1, eb[j].1, key_path(path, eb[j].0)) is Ok);
                lemma_check_sym(ea[i].1, eb[j].1, key_path(path, eb[j].0));
            }
            lemma_entries_from_ok(eb, 0, ea, path);
            assert(eb.subrange(0, eb.len() as int) =~= eb);
            assert forall|i: int| 0 <= i < ea.len() implies #[trigger] lookup(eb, ea[i].0) is Some by {
            }
            lemma_keys_not_in_empty(ea, eb);
        },
        DebugValue::List(x) => {
            let y = b->List_0;
            if x.len() == 1 && y.len() == 1 {
                lemma_check_sym(x[0], y[0], path);
            } else {
                lemma_items_ok(x, y, 0, path);
                assert forall|j: int| 0 <= j < y.len() implies (#[trigger] check(
                    y[j],
                    x[j],
                    index_path(path, j as nat),
                )) is Ok by {
                    assert(check(x[j], y[j], index_path(path, j as nat)) is Ok);
                    lemma_check_sym(x[j], y[j], index_path(path, j as nat));
                }
                lemma_items_from_ok(y, x, 0, path);
            }
        },
        DebugValue::Named(n, inner) => {
            let inner2 = b->Named_1;
            lemma_check_sym(*inner, *inner2, path);
        },
        _ => {},
    }
}

/// Whether two readings match does not depend on which is the expected one: if `s` compares
/// equal to `t`, `t` compares equal to `s`.
pub proof fn law_compare_symmetric(s: Seq<char>, t: Seq<char>)
    ensures
        compare_debug_spec(s, t) == Some(Ok::<(), crate::compare_spec::MismatchValue>(()))
            ==> compare_debug_spec(t, s) == Some(Ok::<(), crate::compare_spec::MismatchValue>(())),
{
    law_parse_well_formed(s);
    law_parse_well_formed(t);
    match (parse_debug(s), parse_debug(t)) {
        (Some(a), Some(b)) => {
            if check(a, b, seq!['#']) is Ok {
                lemma_check_sym(a, b, seq!['#']);
                let r = check(b, a, seq!['#']);
                match r {
                    Ok(u) => {
                        assert(u == ());
                        assert(r == Ok::<(), crate::compare_spec::MismatchValue>(()));
                    },
                    Err(_) => {},
                }
            }
        },
        _ => {},
    }
}


proof fn lemma_lookup_wf(e: Seq<(Seq<char>, DebugValue)>, k: Seq<char>)
    requires
        lookup(e, k) is Some,
        forall|i: int| 0 <= i < e.len() ==> well_formed(#[trigger] e[i].1),
    ensures
        well_formed(lookup(e, k)->0),
{
    lemma_lookup_some(e, k);
}

proof fn lemma_check_trans(a: DebugValue, b: DebugValue, c: DebugValue, path: Seq<char>)
    requires
        well_formed(a),
        well_formed(b),
        well_formed(c),
        check(a, b, path) is Ok,
        check(b, c, path) is Ok,
    ensures
        check(a, c, path) is Ok,
    decreases a,
{
    match a {
        DebugValue::Entries(ea) => {
            let eb = b->Entries_0;
            let ec = c->Entries_0;
            assert(ea.subrange(0, ea.len() as int) =~= ea);
            assert(eb.subrange(0, eb.len() as int) =~= eb);
            lemma_entries_ok(ea, 0, eb, path);
            lemma_entries_ok(eb, 0, ec, path);
            lemma_keys_not_in_found(eb, ea);
            lemma_keys_not_in_found(ec, eb);
            assert forall|i: int| 0 <= i < ea.len() implies #[trigger] lookup(ec, ea[i].0) is Some
                && check(ea[i].1, lookup(ec, ea[i].0)->0, key_path(path, ea[i].0)) is Ok by {
                assert(lookup(eb, ea[i].0) is Some);
                lemma_lookup_some(eb, ea[i].0);
                let j = choose|j: int|
                    0 <= j < eb.len() && eb[j].0 == ea[i].0 && #[trigger] eb[j].1 == lookup(
                        eb,
                        ea[i].0,
                    )->0;
                assert(lookup(ec, eb[j].0) is Some);
                lemma_lookup_wf(ec, eb[j].0);
                lemma_check_trans(ea[i].1, eb[j].1, lookup(ec, eb[j].0)->0, key_path(path, ea[i].0));
            }
            lemma_entries_from_ok(ea, 0, ec, path);
            assert forall|k: int| 0 <= k < ec.len() implies #[trigger] lookup(ea, ec[k].0) is Some by {
                assert(lookup(eb, ec[k].0) is Some);
                lemma_lookup_some(eb, ec[k].0);
                let j = choose|j: int|
                    0 <= j < eb.len() && eb[j].0 == ec[k].0 && #[trigger] eb[j].1 == lookup(
                        eb,
                        ec[k].0,
                    )->0;
                assert(lookup(ea, eb[j].0) is Some);
            }
            lemma_keys_not_in_empty(ec, ea);
        },
        DebugValue::List(x) => {
            let y = b->List_0;
            let z = c->List_0;
            if x.len() == 1 && y.len() == 1 {
                lemma_check_trans(x[0], y[0], z[0], path);
            } else {
                lemma_items_ok(x, y, 0, path);
                lemma_items_ok(y, z, 0, path);
                assert forall|j: int| 0 <= j < x.len() implies (#[trigger] check(
                    x[j],
                    z[j],
                    index_path(path, j as nat),
                )) is Ok by {
                    assert(check(x[j], y[j], index_path(path, j as nat)) is Ok);
                    assert(check(y[j], z[j], index_path(path, j as nat)) is Ok);
                    lemma_check_trans(x[j], y[j], z[j], index_path(path, j as nat));
                }
                lemma_items_from_ok(x, z, 0, path);
            }
        },
        DebugValue::Named(n, inner) => {
            lemma_check_trans(*inner, *b->Named_1, *c->Named_1, path);
        },
        _ => {},
    }
}

/// Comparing chains: if `s` compares equal to `t` and `t` to `u`, then `s` compares equal to
/// `u`. With the two laws before, comparing equal is an equivalence on readable texts.
pub proof fn law_compare_transitive(s: Seq<char>, t: Seq<char>, u: Seq<char>)
    ensures
        compare_debug_spec(s, t) == Some(Ok::<(), crate::compare_spec::MismatchValue>(()))
            && compare_debug_spec(t, u) == Some(Ok::<(), crate::compare_spec::MismatchValue>(()))
            ==> compare_debug_spec(s, u) == Some(Ok::<(), crate::compare_spec::MismatchValue>(())),
{
    law_parse_well_formed(s);
    law_parse_well_formed(t);
    law_parse_well_formed(u);
    match (parse_debug(s), parse_debug(t), parse_debug(u)) {
        (Some(a), Some(b), Some(c)) => {
            if check(a, b, seq!['#']) is Ok && check(b, c, seq!['#']) is Ok {
                lemma_check_trans(a, b, c, seq!['#']);
                let r = check(a, c, seq!['#']);
                match r {
                    Ok(x) => {
                        assert(x == ());
                        assert(r == Ok::<(), crate::compare_spec::MismatchValue>(()));
                    },
                    Err(_) => {},
                }
            }
        },
        _ => {},
    }
}


/// Whether `c` holds none of `( ) [ ]`.
pub open spec fn no_parens(c: Seq<char>) -> bool {
    forall|i: int| 0 <= i < c.len() ==> #[trigger] c[i] != '(' && c[i] != ')' && c[i] != '[' && c[i]
        != ']'
}

proof fn lemma_skip_group_alike(
    o: char,
    cl: char,
    depth: int,
    d: Seq<char>,
    x1: char,
    x2: char,
    acc: Seq<char>,
) -> (k: int)
    requires
        x1 != o && x1 != cl,
        x2 != o && x2 != cl,
    ensures
        0 <= k <= d.len(),
        ({
            let (r1, a1) = crate::debug_spec::skip_group(o, cl, depth, d.push(x1), acc);
            let (r2, a2) = crate::debug_spec::skip_group(o, cl, depth, d.push(x2), acc);
            (r1.len() == 0 && r2.len() == 0) || (r1 == d.subrange(k, d.len() as int).push(x1)
                && r2 == d.subrange(k, d.len() as int).push(x2) && a1 == a2)
        }),
    decreases d.len(),
{
    let s1 = d.push(x1);
    let s2 = d.push(x2);
    if d.len() == 0 {
        assert(s1.drop_first() =~= Seq::<char>::empty());
        assert(s2.drop_first() =~= Seq::<char>::empty());
        assert(s1[0] == x1 && s2[0] == x2);
        if depth != 0 {
            assert(crate::debug_spec::skip_group(o, cl, depth, s1, acc) == crate::debug_spec::skip_group(o, cl, depth, Seq::<char>::empty(), acc.push(x1)));
            assert(crate::debug_spec::skip_group(o, cl, depth, s2, acc) == crate::debug_spec::skip_group(o, cl, depth, Seq::<char>::empty(), acc.push(x2)));
        }
        0
    } else {
        let c = d[0];
        let t = d.drop_first();
        assert(s1[0] == c && s2[0] == c);
        assert(s1.drop_first() =~= t.push(x1));
        assert(s2.drop_first() =~= t.push(x2));
        let nd = if c == o {
            depth + 1
        } else if c == cl {
            depth - 1
        } else {
            depth
        };
        if nd == 0 {
            assert(d.subrange(1, d.len() as int) =~= t);
            1
        } else {
            assert(crate::debug_spec::skip_group(o, cl, depth, s1, acc) == crate::debug_spec::skip_group(o, cl, nd, t.push(x1), acc.push(c)));
            assert(crate::debug_spec::skip_group(o, cl, depth, s2, acc) == crate::debug_spec::skip_group(o, cl, nd, t.push(x2), acc.push(c)));
            let k = lemma_skip_group_alike(o, cl, nd, t, x1, x2, acc.push(c));
            assert(t.subrange(k, t.len() as int) =~= d.subrange(k + 1, d.len() as int));
            k + 1
        }
    }
}

proof fn lemma_skip_quoted_alike(d: Seq<char>, x1: char, x2: char, acc: Seq<char>) -> (k: int)
    requires
        x1 != '"' && x1 != '\\',
        x2 != '"' && x2 != '\\',
    ensures
        0 <= k <= d.len(),
        ({
            let (r1, a1) = crate::debug_spec::skip_quoted(d.push(x1), acc);
            let (r2, a2) = crate::debug_spec::skip_quoted(d.push(x2), acc);
            (r1.len() == 0 && r2.len() == 0) || (r1 == d.subrange(k, d.len() as int).push(x1)
                && r2 == d.subrange(k, d.len() as int).push(x2) && a1 == a2)
        }),
    decreases d.len(),
{
    let s1 = d.push(x1);
    let s2 = d.push(x2);
    if d.len() == 0 {
        assert(s1.drop_first() =~= Seq::<char>::empty());
        assert(s2.drop_first() =~= Seq::<char>::empty());
        assert(s1[0] == x1 && s2[0] == x2);
        assert(crate::debug_spec::skip_quoted(s1, acc) == crate::debug_spec::skip_quoted(Seq::<char>::empty(), acc.push(x1)));
        assert(crate::debug_spec::skip_quoted(s2, acc) == crate::debug_spec::skip_quoted(Seq::<char>::empty(), acc.push(x2)));
        0
    } else {
        let c = d[0];
        let t = d.drop_first();
        assert(s1[0] == c && s2[0] == c);
        assert(s1.drop_first() =~= t.push(x1));
        assert(s2.drop_first() =~= t.push(x2));
        if c == '"' {
            assert(d.subrange(1, d.len() as int) =~= t);
            1
        } else if c == '\\' && t.len() > 0 && t[0] == '"' {
            assert(t.push(x1)[0] == '"' && t.push(x2)[0] == '"');
            let u = t.drop_first();
            assert(t.push(x1).drop_first() =~= u.push(x1));
            assert(t.push(x2).drop_first() =~= u.push(x2));
            assert(crate::debug_spec::skip_quoted(s1, acc) == crate::debug_spec::skip_quoted(u.push(x1), acc.push(c).push('"')));
            assert(crate::debug_spec::skip_quoted(s2, acc) == crate::debug_spec::skip_quoted(u.push(x2), acc.push(c).push('"')));
            let k = lemma_skip_quoted_alike(u, x1, x2, acc.push(c).push('"'));
            assert(u.subrange(k, u.len() as int) =~= d.subrange(k + 2, d.len() as int));
            k + 2
        } else {
            if t.len() == 0 {
                assert(t.push(x1)[0] == x1 && t.push(x2)[0] == x2);
            } else {
                assert(t.push(x1)[0] == t[0] && t.push(x2)[0] == t[0]);
            }
            assert(crate::debug_spec::skip_quoted(s1, acc) == crate::debug_spec::skip_quoted(t.push(x1), acc.push(c)));
            assert(crate::debug_spec::skip_quoted(s2, acc) == crate::debug_spec::skip_quoted(t.push(x2), acc.push(c)));
            let k = lemma_skip_quoted_alike(t, x1, x2, acc.push(c));
            assert(t.subrange(k, t.len() as int) =~= d.subrange(k + 1, d.len() as int));
            k + 1
        }
    }
}

proof fn lemma_items_alike(c: Seq<char>, val: Seq<char>, items: Seq<DebugValue>, budget: nat)
    requires
        no_parens(c),
    ensures
        seq_items(')', c.push(')'), val, items, budget) == seq_items(
            ']',
            c.push(']'),
            val,
            items,
            budget,
        ),
    decreases c.len(),
{
    let ra = c.push(')');
    let rb = c.push(']');
    let e = Seq::<char>::empty();
    crate::debug_spec::lemma_skip_all(ra[0], ra.drop_first(), val);
    crate::debug_spec::lemma_skip_all(rb[0], rb.drop_first(), val);
    if c.len() == 0 {
        assert(ra.drop_first() =~= e);
        assert(rb.drop_first() =~= e);
        assert(ra[0] == ')' && rb[0] == ']');
        if crate::debug_spec::weight(val) < budget {
            match parse_debug(val) {
                Some(x) => {
                    assert(seq_items(')', e, e, items.push(x), budget) == Some(items.push(x)));
                    assert(seq_items(']', e, e, items.push(x), budget) == Some(items.push(x)));
                },
                None => {},
            }
        }
    } else {
        let next = c[0];
        let d = c.drop_first();
        assert(ra[0] == next && rb[0] == next);
        assert(ra.drop_first() =~= d.push(')'));
        assert(rb.drop_first() =~= d.push(']'));
        assert(next != '(' && next != ')' && next != '[' && next != ']');
        if next == '{' {
            let k = lemma_skip_group_alike('{', '}', 1, d, ')', ']', val.push(next));
            let (r1, v1) = crate::debug_spec::skip_group('{', '}', 1, d.push(')'), val.push(next));
            let (r2, v2) = crate::debug_spec::skip_group('{', '}', 1, d.push(']'), val.push(next));
            assert(seq_items(')', ra, val, items, budget) == seq_items(')', r1, v1.push(next), items, budget));
            assert(seq_items(']', rb, val, items, budget) == seq_items(']', r2, v2.push(next), items, budget));
            if r1.len() == 0 && r2.len() == 0 {
            } else {
                let f = d.subrange(k, d.len() as int);
                assert(no_parens(f)) by {
                    assert forall|i: int| 0 <= i < f.len() implies #[trigger] f[i] != '(' && f[i]
                        != ')' && f[i] != '[' && f[i] != ']' by {
                        assert(f[i] == c[i + k + 1]);
                    }
                }
                lemma_items_alike(f, v1.push(next), items, budget);
            }
        } else if next == '"' {
            let k = lemma_skip_quoted_alike(d, ')', ']', val.push(next));
            let (r1, v1) = crate::debug_spec::skip_quoted(d.push(')'), val.push(next));
            let (r2, v2) = crate::debug_spec::skip_quoted(d.push(']'), val.push(next));
            assert(seq_items(')', ra, val, items, budget) == seq_items(')', r1, v1.push(next), items, budget));
            assert(seq_items(']', rb, val, items, budget) == seq_items(']', r2, v2.push(next), items, budget));
            if r1.len() == 0 && r2.len() == 0 {
            } else {
                let f = d.subrange(k, d.len() as int);
                assert(no_parens(f)) by {
                    assert forall|i: int| 0 <= i < f.len() implies #[trigger] f[i] != '(' && f[i]
                        != ')' && f[i] != '[' && f[i] != ']' by {
                        assert(f[i] == c[i + k + 1]);
                    }
                }
                lemma_items_alike(f, v1.push(next), items, budget);
            }
        } else {
            assert(no_parens(d)) by {
                assert forall|i: int| 0 <= i < d.len() implies #[trigger] d[i] != '(' && d[i] != ')'
                    && d[i] != '[' && d[i] != ']' by {
                    assert(d[i] == c[i + 1]);
                }
            }
            assert(crate::debug_spec::skip_all(next, d.push(')'), val) == (d.push(')'), val));
            assert(crate::debug_spec::skip_all(next, d.push(']'), val) == (d.push(']'), val));
            if next == ' ' {
                lemma_items_alike(d, val, items, budget);
            } else if next == ',' {
                if crate::debug_spec::weight(val) < budget {
                    match parse_debug(val) {
                        Some(x) => {
                            lemma_items_alike(d, e, items.push(x), budget);
                        },
                        None => {},
                    }
                }
            } else {
                lemma_items_alike(d, val.push(next), items, budget);
            }
        }
    }
}

/// A list in `[..]` reads back exactly as one in `(..)`: for a text `c` that holds none of
/// `( ) [ ]`, `[c]` and `(c)` give the same value.
pub proof fn law_brackets_alike(c: Seq<char>)
    requires
        no_parens(c),
    ensures
        parse_debug(seq!['('] + c + seq![')']) == parse_debug(seq!['['] + c + seq![']']),
{
    let a = seq!['('] + c + seq![')'];
    let b = seq!['['] + c + seq![']'];
    assert(a.drop_first() =~= c.push(')'));
    assert(b.drop_first() =~= c.push(']'));
    assert(a[0] == '(' && b[0] == '[');
    crate::debug_spec::lemma_weight_push(c, ')');
    crate::debug_spec::lemma_weight_push(c, ']');
    assert(crate::debug_spec::weight(a) == crate::debug_spec::weight(c.push(')')));
    assert(crate::debug_spec::weight(b) == crate::debug_spec::weight(c.push(']')));
    lemma_items_alike(c, Seq::empty(), Seq::empty(), crate::debug_spec::weight(a));
}


proof fn lemma_check_path_free(a: DebugValue, b: DebugValue, p1: Seq<char>, p2: Seq<char>)
    requires
        check(a, b, p1) is Ok,
    ensures
        check(a, b, p2) is Ok,
    decreases a,
{
    match a {
        DebugValue::Entries(ea) => {
            let eb = b->Entries_0;
            assert(ea.subrange(0, ea.len() as int) =~= ea);
            lemma_entries_ok(ea, 0, eb, p1);
            assert forall|i: int| 0 <= i < ea.len() implies #[trigger] lookup(eb, ea[i].0) is Some
                && check(ea[i].1, lookup(eb, ea[i].0)->0, key_path(p2, ea[i].0)) is Ok by {
                lemma_check_path_free(
                    ea[i].1,
                    lookup(eb, ea[i].0)->0,
                    key_path(p1, ea[i].0),
                    key_path(p2, ea[i].0),
                );
            }
            lemma_entries_from_ok(ea, 0, eb, p2);
        },
        DebugValue::List(x) => {
            let y = b->List_0;
            if x.len() == 1 && y.len() == 1 {
                lemma_check_path_free(x[0], y[0], p1, p2);
            } else {
                lemma_items_ok(x, y, 0, p1);
                assert forall|j: int| 0 <= j < x.len() implies (#[trigger] check(
                    x[j],
                    y[j],
                    index_path(p2, j as nat),
                )) is Ok by {
                    assert(check(x[j], y[j], index_path(p1, j as nat)) is Ok);
                    lemma_check_path_free(x[j], y[j], index_path(p1, j as nat), index_path(p2, j as nat));
                }
                lemma_items_from_ok(x, y, 0, p2);
            }
        },
        DebugValue::Named(n, inner) => {
            lemma_check_path_free(*inner, *b->Named_1, p1, p2);
        },
        _ => {},
    }
}

/// Whether two values match does not depend on the path from which the comparison starts:
/// the path only names where a mismatch was found.
pub proof fn law_check_path_free(a: DebugValue, b: DebugValue, p1: Seq<char>, p2: Seq<char>)
    ensures
        check(a, b, p1) is Ok <==> check(a, b, p2) is Ok,
{
    if check(a, b, p1) is Ok {
        lemma_check_path_free(a, b, p1, p2);
    }
    if check(a, b, p2) is Ok {
        lemma_check_path_free(a, b, p2, p1);
    }
}


/// Whether `b` is a well-escaped string body, as `{:?}` writes one between its quotes: a
/// sequence of characters other than `"` and `\`, and of escapes, each a backslash and the
/// character after it.
pub open spec fn escaped_body(b: Seq<char>) -> bool
    decreases b.len(),
{
    if b.len() == 0 {
        true
    } else if b[0] == '\\' {
        b.len() >= 2 && escaped_body(b.subrange(2, b.len() as int))
    } else if b[0] == '"' {
        false
    } else {
        escaped_body(b.drop_first())
    }
}

proof fn lemma_quoted_body_escaped(b: Seq<char>, tail: Seq<char>, val: Seq<char>)
    requires
        escaped_body(b),
    ensures
        crate::debug_spec::quoted_body(b + seq!['"'] + tail, val) == Some(val + b),
    decreases b.len(),
{
    let rest = b + seq!['"'] + tail;
    if b.len() == 0 {
        assert(rest[0] == '"');
        assert(val + b =~= val);
    } else if b[0] == '\\' {
        let b2 = b.subrange(2, b.len() as int);
        let r = rest.drop_first();
        assert(rest[0] == '\\');
        assert(r[0] == b[1]);
        assert(r.drop_first() =~= b2 + seq!['"'] + tail);
        lemma_quoted_body_escaped(b2, tail, val.push(b[0]).push(b[1]));
        assert(val.push(b[0]).push(b[1]) + b2 =~= val + b);
    } else {
        let b2 = b.drop_first();
        assert(rest[0] == b[0]);
        assert(rest.drop_first() =~= b2 + seq!['"'] + tail);
        lemma_quoted_body_escaped(b2, tail, val.push(b[0]));
        assert(val.push(b[0]) + b2 =~= val + b);
    }
}

/// A quoted string reads back as its whole body: for a well-escaped body `b` (what `{:?}`
/// writes of any string), the text `"b"` reads back as the text `b`, escapes kept; an escaped
/// quote does not end the string.
pub proof fn law_quoted_read_back(b: Seq<char>)
    requires
        escaped_body(b),
    ensures
        parse_debug(seq!['"'] + b + seq!['"']) == Some(DebugValue::Text(b)),
{
    let s = seq!['"'] + b + seq!['"'];
    assert(s[0] == '"');
    assert(s.drop_first() =~= b + seq!['"'] + Seq::<char>::empty());
    lemma_quoted_body_escaped(b, Seq::empty(), Seq::empty());
    assert(Seq::<char>::empty() + b =~= b);
}

/// Two texts match only when they are the same: quoted strings, and any other bare text,
/// compare equal exactly when their characters are equal.
pub proof fn law_texts_match_when_equal(t: Seq<char>, t2: Seq<char>, path: Seq<char>)
    ensures
        check(DebugValue::Text(t), DebugValue::Text(t2), path) is Ok <==> t == t2,
        check(DebugValue::Other(t), DebugValue::Other(t2), path) is Ok <==> t == t2,
{
}

/// The renderings of two different strings do not compare equal: their quoted bodies read
/// back whole, and the mismatch is reported at the root, showing both texts quoted.
pub proof fn law_different_strings_mismatch(b1: Seq<char>, b2: Seq<char>)
    requires
        escaped_body(b1),
        escaped_body(b2),
    ensures
        compare_debug_spec(seq!['"'] + b1 + seq!['"'], seq!['"'] + b2 + seq!['"']) == if b1
            == b2 {
            Some(Ok::<(), crate::compare_spec::MismatchValue>(()))
        } else {
            Some(
                Err(
                    crate::compare_spec::MismatchValue {
                        path: seq!['#'],
                        kind: crate::compare_spec::MismatchKindValue::Differs,
                        expected: crate::render::debug_quoted(b1),
                        found: crate::render::debug_quoted(b2),
                    },
                ),
            )
        },
{
    law_quoted_read_back(b1);
    law_quoted_read_back(b2);
}

} // verus!
