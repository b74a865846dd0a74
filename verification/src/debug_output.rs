use vstd::prelude::*;
use crate::debug_spec::DebugValue;

verus! {

/// A parsed `Debug` rendering: the value that `str_to_debug` reads back. Two of them are
/// `==` where they hold the same value, maps compared by key whatever the order of their
/// entries.
#[derive(Debug)]
pub enum DebugOutput {
    /// `{ key: value, .. }`, entries in the order their keys first appeared.
    Entries(Vec<(String, DebugOutput)>),
    /// `( .. )` or `[ .. ]`.
    Vec(Vec<DebugOutput>),
    /// A name in front of a bracketed value.
    Named(String, Box<DebugOutput>),
    /// A quoted string.
    String(String),
    /// Anything else.
    Other(String),
}

impl DebugOutput {
    /// The mathematical value.
    pub open spec fn value(self) -> DebugValue
        decreases self,
    {
        match self {
            DebugOutput::Entries(m) => DebugValue::Entries(entries_of(m@)),
            DebugOutput::Vec(v) => DebugValue::List(values_of(v@)),
            DebugOutput::Named(n, b) => DebugValue::Named(n@, Box::new((*b).value())),
            DebugOutput::String(s) => DebugValue::Text(s@),
            DebugOutput::Other(s) => DebugValue::Other(s@),
        }
    }
}

/// The values of a sequence of outputs.
pub open spec fn values_of(s: Seq<DebugOutput>) -> Seq<DebugValue>
    decreases s,
{
    if s.len() == 0 {
        Seq::empty()
    } else {
        values_of(s.subrange(0, s.len() - 1)).push(s[s.len() - 1].value())
    }
}

/// The entries of a sequence of key/output pairs.
pub open spec fn entries_of(s: Seq<(String, DebugOutput)>) -> Seq<(Seq<char>, DebugValue)>
    decreases s,
{
    if s.len() == 0 {
        Seq::empty()
    } else {
        entries_of(s.subrange(0, s.len() - 1)).push(
            (s[s.len() - 1].0@, s[s.len() - 1].1.value()),
        )
    }
}

pub proof fn lemma_values_of(s: Seq<DebugOutput>)
    ensures
        values_of(s).len() == s.len(),
        forall|i: int| 0 <= i < s.len() ==> #[trigger] values_of(s)[i] == s[i].value(),
    decreases s.len(),
{
    if s.len() > 0 {
        lemma_values_of(s.subrange(0, s.len() - 1));
    }
}

pub proof fn lemma_entries_of(s: Seq<(String, DebugOutput)>)
    ensures
        entries_of(s).len() == s.len(),
        forall|i: int|
            0 <= i < s.len() ==> #[trigger] entries_of(s)[i] == (s[i].0@, s[i].1.value()),
    decreases s.len(),
{
    if s.len() > 0 {
        lemma_entries_of(s.subrange(0, s.len() - 1));
    }
}

pub proof fn lemma_values_of_push(s: Seq<DebugOutput>, x: DebugOutput)
    ensures
        values_of(s.push(x)) == values_of(s).push(x.value()),
{
    assert(s.push(x).subrange(0, s.len() as int) =~= s);
}

} // verus!

verus! {

pub proof fn lemma_entries_insert_found(
    e: Seq<(Seq<char>, DebugValue)>,
    k: Seq<char>,
    v: DebugValue,
    i: int,
)
    requires
        0 <= i < e.len(),
        e[i].0 == k,
        forall|j: int| 0 <= j < i ==> e[j].0 != k,
    ensures
        crate::debug_spec::entries_insert(e, k, v) == e.update(i, (k, v)),
    decreases e.len(),
{
    if i == 0 {
        assert(seq![(k, v)] + e.drop_first() =~= e.update(0, (k, v)));
    } else {
        assert(e[0].0 != k);
        lemma_entries_insert_found(e.drop_first(), k, v, i - 1);
        assert(seq![e[0]] + e.drop_first().update(i - 1, (k, v)) =~= e.update(i, (k, v)));
    }
}

pub proof fn lemma_entries_insert_absent(
    e: Seq<(Seq<char>, DebugValue)>,
    k: Seq<char>,
    v: DebugValue,
)
    requires
        forall|j: int| 0 <= j < e.len() ==> e[j].0 != k,
    ensures
        crate::debug_spec::entries_insert(e, k, v) == e.push((k, v)),
    decreases e.len(),
{
    if e.len() == 0 {
        assert(seq![(k, v)] =~= e.push((k, v)));
    } else {
        assert(e[0].0 != k);
        lemma_entries_insert_absent(e.drop_first(), k, v);
        assert(seq![e[0]] + e.drop_first().push((k, v)) =~= e.push((k, v)));
    }
}

/// Sets the value of `key`, as a `HashMap` insert does: the entry with that key gets the
/// value, or a new entry is appended.
pub fn insert_entry(entries: &mut Vec<(String, DebugOutput)>, key: String, value: DebugOutput)
    ensures
        entries_of(final(entries)@) == crate::debug_spec::entries_insert(
            entries_of(old(entries)@),
            key@,
            value.value(),
        ),
{
    let ghost old_e = entries@;
    let ghost kv = key@;
    let ghost vv = value.value();
    proof {
        lemma_entries_of(old_e);
    }
    let mut i: usize = 0;
    let mut found = false;
    while i < entries.len()
        invariant_except_break
            i <= entries.len(),
            entries@ == old_e,
            key@ == kv,
            !found,
            forall|j: int| 0 <= j < i ==> entries_of(old_e)[j].0 != kv,
        ensures
            entries@ == old_e,
            found ==> i < entries.len() && entries_of(old_e)[i as int].0 == kv,
            forall|j: int| 0 <= j < i ==> entries_of(old_e)[j].0 != kv,
            !found ==> i == entries.len(),
        decreases entries.len() - i,
    {
        proof {
            lemma_entries_of(old_e);
        }
        if entries[i].0 == key {
            found = true;
            break ;
        }
        i = i + 1;
    }
    if found {
        proof {
            lemma_entries_insert_found(entries_of(old_e), kv, vv, i as int);
        }
        entries.set(i, (key, value));
        proof {
            lemma_entries_of(entries@);
            assert(entries_of(entries@) =~= entries_of(old_e).update(i as int, (kv, vv)));
        }
    } else {
        proof {
            lemma_entries_insert_absent(entries_of(old_e), kv, vv);
        }
        entries.push((key, value));
        proof {
            assert(entries@.subrange(0, entries@.len() - 1) =~= old_e);
        }
    }
}

} // verus!
