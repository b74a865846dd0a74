use vstd::prelude::*;
use crate::debug_output::{
    entries_of, lemma_entries_of, lemma_values_of, values_of, DebugOutput,
};
use crate::debug_spec::DebugValue;
use crate::text::{push_str, string_push};

verus! {

/// What `{:?}` gives for a string slice with characters `s`: the text quoted, with its
/// special characters escaped (`<str as Debug>::fmt`).
pub uninterp spec fn debug_quoted(s: Seq<char>) -> Seq<char>;

/// `<str as Debug>::fmt`, through `format!("{:?}", ..)`: the quoted, escaped text.
#[verifier::external_body]
pub(crate) fn quoted_text(s: &str) -> (r: String)
    ensures
        r@ == debug_quoted(s@),
{
    format!("{:?}", s)
}

/// The compact rendering of a value: maps as `{"key": value, }`, lists as `[item, ]`, a
/// one-item list as its item, a named value without its name, strings quoted, other text as
/// it is.
pub open spec fn render(v: DebugValue) -> Seq<char>
    decreases v, 0nat,
{
    match v {
        DebugValue::Entries(e) => if e.len() == 0 || (e.len() == 1 && e[0].0.len() == 0) {
            seq!['{', '}']
        } else {
            seq!['{'] + render_entries(e) + seq!['}']
        },
        DebugValue::List(x) => if x.len() == 1 {
            render(x[0])
        } else {
            seq!['['] + render_items(x) + seq![']']
        },
        DebugValue::Named(_, b) => render(*b),
        DebugValue::Text(s) => debug_quoted(s),
        DebugValue::Other(s) => s,
    }
}

/// `item, ` for each item.
pub open spec fn render_items(x: Seq<DebugValue>) -> Seq<char>
    decreases x, 0nat,
{
    if x.len() == 0 {
        Seq::empty()
    } else {
        render_items(x.subrange(0, x.len() - 1)) + render(x[x.len() - 1]) + seq![',', ' ']
    }
}

/// `"key": value, ` for each entry.
pub open spec fn render_entries(e: Seq<(Seq<char>, DebugValue)>) -> Seq<char>
    decreases e, 0nat,
{
    if e.len() == 0 {
        Seq::empty()
    } else {
        render_entries(e.subrange(0, e.len() - 1)) + debug_quoted(e[e.len() - 1].0) + seq![
            ':',
            ' ',
        ] + render(e[e.len() - 1].1) + seq![',', ' ']
    }
}

impl DebugOutput {
    /// The compact rendering (see `render`), which failure messages show.
    pub fn debug_string(&self) -> (r: String)
        ensures
            r@ == render(self.value()),
        decreases self,
    {
        match self {
            DebugOutput::Entries(map) => {
                proof {
                    lemma_entries_of(map@);
                }
                if map.len() == 0 || (map.len() == 1 && map[0].0.as_str().is_empty()) {
                    let mut s = String::new();
                    string_push(&mut s, '{');
                    string_push(&mut s, '}');
                    assert(s@ =~= seq!['{', '}']);
                    return s;
                }
                let ghost e = entries_of(map@);
                let mut s = String::new();
                string_push(&mut s, '{');
                let mut i: usize = 0;
                #[verifier::loop_isolation(false)]
                while i < map.len()
                    invariant
                        i <= map.len(),
                        e.len() == map.len(),
                        s@ == seq!['{'] + render_entries(e.subrange(0, i as int)),
                    decreases map.len() - i,
                {
                    let k = quoted_text(map[i].0.as_str());
                    push_str(&mut s, k.as_str());
                    string_push(&mut s, ':');
                    string_push(&mut s, ' ');
                    let v = map[i].1.debug_string();
                    push_str(&mut s, v.as_str());
                    string_push(&mut s, ',');
                    string_push(&mut s, ' ');
                    proof {
                        let sub = e.subrange(0, i + 1);
                        assert(sub.subrange(0, i as int) =~= e.subrange(0, i as int));
                        assert(s@ =~= seq!['{'] + render_entries(sub));
                    }
                    i = i + 1;
                }
                string_push(&mut s, '}');
                assert(e.subrange(0, map.len() as int) =~= e);
                s
            },
            DebugOutput::Vec(vec) => {
                proof {
                    lemma_values_of(vec@);
                }
                if vec.len() == 1 {
                    return vec[0].debug_string();
                }
                let ghost x = values_of(vec@);
                let mut s = String::new();
                string_push(&mut s, '[');
                let mut i: usize = 0;
                #[verifier::loop_isolation(false)]
                while i < vec.len()
                    invariant
                        i <= vec.len(),
                        x.len() == vec.len(),
                        s@ == seq!['['] + render_items(x.subrange(0, i as int)),
                    decreases vec.len() - i,
                {
                    let v = vec[i].debug_string();
                    push_str(&mut s, v.as_str());
                    string_push(&mut s, ',');
                    string_push(&mut s, ' ');
                    proof {
                        let sub = x.subrange(0, i + 1);
                        assert(sub.subrange(0, i as int) =~= x.subrange(0, i as int));
                        assert(s@ =~= seq!['['] + render_items(sub));
                    }
                    i = i + 1;
                }
                string_push(&mut s, ']');
                assert(x.subrange(0, vec.len() as int) =~= x);
                s
            },
            DebugOutput::Named(_, value) => value.debug_string(),
            DebugOutput::String(s) => quoted_text(s.as_str()),
            DebugOutput::Other(s) => s.clone(),
        }
    }
}


/// `"key": value` for one entry.
pub open spec fn entry_text(p: (Seq<char>, DebugValue)) -> Seq<char> {
    debug_quoted(p.0) + seq![':', ' '] + render(p.1)
}

/// A map as `{:?}` shows a map of these entries: `{"key": value, "key": value}`.
pub open spec fn render_map(e: Seq<(Seq<char>, DebugValue)>) -> Seq<char> {
    seq!['{'] + crate::compare::join(e.map_values(|p: (Seq<char>, DebugValue)| entry_text(p)), seq![',', ' '])
        + seq!['}']
}

/// A list as `{:?}` shows a `Vec` of these items: `[item, item]`.
pub open spec fn render_list(x: Seq<DebugValue>) -> Seq<char> {
    seq!['['] + crate::compare::join(x.map_values(|v: DebugValue| render(v)), seq![',', ' '])
        + seq![']']
}

proof fn lemma_join_step(items: Seq<Seq<char>>, i: int, sep: Seq<char>)
    requires
        0 <= i < items.len(),
    ensures
        crate::compare::join(items.subrange(0, i + 1), sep) == if i == 0 {
            items[0]
        } else {
            crate::compare::join(items.subrange(0, i), sep) + sep + items[i]
        },
{
    let sub = items.subrange(0, i + 1);
    assert(sub.subrange(0, i) =~= items.subrange(0, i));
    assert(sub[i] == items[i]);
}

/// The rendering of a map's entries (see `render_map`).
pub fn map_text(m: &Vec<(String, DebugOutput)>) -> (r: String)
    ensures
        r@ == render_map(entries_of(m@)),
{
    proof {
        lemma_entries_of(m@);
    }
    let ghost items = entries_of(m@).map_values(|p: (Seq<char>, DebugValue)| entry_text(p));
    let mut s = String::new();
    string_push(&mut s, '{');
    let mut i: usize = 0;
    assert(items.subrange(0, 0) =~= Seq::<Seq<char>>::empty());
    while i < m.len()
        invariant
            i <= m.len(),
            items.len() == m.len(),
            items == entries_of(m@).map_values(|p: (Seq<char>, DebugValue)| entry_text(p)),
            forall|j: int| 0 <= j < m.len() ==> #[trigger] entries_of(m@)[j] == (m@[j].0@, m@[j].1.value()),
            s@ == seq!['{'] + crate::compare::join(items.subrange(0, i as int), seq![',', ' ']),
        decreases m.len() - i,
    {
        if i > 0 {
            string_push(&mut s, ',');
            string_push(&mut s, ' ');
        }
        let k = quoted_text(m[i].0.as_str());
        push_str(&mut s, k.as_str());
        string_push(&mut s, ':');
        string_push(&mut s, ' ');
        let v = m[i].1.debug_string();
        push_str(&mut s, v.as_str());
        proof {
            lemma_join_step(items, i as int, seq![',', ' ']);
            assert(items[i as int] == entry_text(entries_of(m@)[i as int]));
            assert(s@ =~= seq!['{'] + crate::compare::join(items.subrange(0, i + 1), seq![',', ' ']));
        }
        i = i + 1;
    }
    string_push(&mut s, '}');
    assert(items.subrange(0, m.len() as int) =~= items);
    s
}

/// The rendering of a list's items (see `render_list`).
pub fn list_text(v: &Vec<DebugOutput>) -> (r: String)
    ensures
        r@ == render_list(values_of(v@)),
{
    proof {
        lemma_values_of(v@);
    }
    let ghost items = values_of(v@).map_values(|x: DebugValue| render(x));
    let mut s = String::new();
    string_push(&mut s, '[');
    let mut i: usize = 0;
    assert(items.subrange(0, 0) =~= Seq::<Seq<char>>::empty());
    while i < v.len()
        invariant
            i <= v.len(),
            items.len() == v.len(),
            items == values_of(v@).map_values(|x: DebugValue| render(x)),
            forall|j: int| 0 <= j < v.len() ==> #[trigger] values_of(v@)[j] == v@[j].value(),
            s@ == seq!['['] + crate::compare::join(items.subrange(0, i as int), seq![',', ' ']),
        decreases v.len() - i,
    {
        if i > 0 {
            string_push(&mut s, ',');
            string_push(&mut s, ' ');
        }
        let t = v[i].debug_string();
        push_str(&mut s, t.as_str());
        proof {
            lemma_join_step(items, i as int, seq![',', ' ']);
            assert(items[i as int] == render(values_of(v@)[i as int]));
            assert(s@ =~= seq!['['] + crate::compare::join(items.subrange(0, i + 1), seq![',', ' ']));
        }
        i = i + 1;
    }
    string_push(&mut s, ']');
    assert(items.subrange(0, v.len() as int) =~= items);
    s
}

} // verus!
