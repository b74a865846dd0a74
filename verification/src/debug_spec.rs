use vstd::prelude::*;

verus! {

/// The mathematical value of a parsed `Debug` rendering.
pub enum DebugValue {
    /// Key/value entries in the order their keys first appeared; no key occurs twice.
    Entries(Seq<(Seq<char>, DebugValue)>),
    /// A tuple or list.
    List(Seq<DebugValue>),
    /// A name written in front of a bracketed value, such as a struct or variant name.
    Named(Seq<char>, Box<DebugValue>),
    /// The contents of a quoted string, escape backslashes kept.
    Text(Seq<char>),
    /// Any other text, such as a number.
    Other(Seq<char>),
}

/// Whether `c` opens a bracketed group.
pub open spec fn is_opener(c: char) -> bool {
    c == '(' || c == '[' || c == '{'
}

/// Characters that never grow when a group or a string is copied: every character but the
/// three openers and the double quote.
pub open spec fn counted(c: char) -> bool {
    !is_opener(c) && c != '"'
}

/// The number of counted characters in `s`.
pub open spec fn weight(s: Seq<char>) -> nat
    decreases s.len(),
{
    if s.len() == 0 {
        0
    } else {
        (if counted(s[0]) { 1nat } else { 0nat }) + weight(s.drop_first())
    }
}

pub proof fn lemma_weight_push(s: Seq<char>, c: char)
    ensures
        weight(s.push(c)) == weight(s) + (if counted(c) { 1nat } else { 0nat }),
    decreases s.len(),
{
    if s.len() == 0 {
        assert(s.push(c).drop_first() =~= s);
    } else {
        assert(s.push(c).drop_first() =~= s.drop_first().push(c));
        lemma_weight_push(s.drop_first(), c);
    }
}

/// Copies a bracketed group whose opener has already been copied: characters are copied up
/// to and including the closer that brings the nesting `depth` to zero, or to the end.
/// Returns the rest of the input and the grown copy.
pub open spec fn skip_group(
    open: char,
    close: char,
    depth: int,
    rest: Seq<char>,
    acc: Seq<char>,
) -> (Seq<char>, Seq<char>)
    decreases rest.len(),
{
    if rest.len() == 0 {
        (rest, acc)
    } else {
        let c = rest[0];
        let d = if c == open {
            depth + 1
        } else if c == close {
            depth - 1
        } else {
            depth
        };
        if d == 0 {
            (rest.drop_first(), acc.push(c))
        } else {
            skip_group(open, close, d, rest.drop_first(), acc.push(c))
        }
    }
}

/// Copies a quoted string whose opening quote has already been copied, up to and including
/// the closing quote; an escaped quote (`\"`) is copied whole.
pub open spec fn skip_quoted(rest: Seq<char>, acc: Seq<char>) -> (Seq<char>, Seq<char>)
    decreases rest.len(),
{
    if rest.len() == 0 {
        (rest, acc)
    } else {
        let c = rest[0];
        let r = rest.drop_first();
        if c == '"' {
            (r, acc.push(c))
        } else if c == '\\' && r.len() > 0 && r[0] == '"' {
            skip_quoted(r.drop_first(), acc.push(c).push('"'))
        } else {
            skip_quoted(r, acc.push(c))
        }
    }
}

/// Reads a quoted key whose opening quote has been consumed, dropping the closing quote and
/// the backslash of an escaped quote.
pub open spec fn skip_key(rest: Seq<char>, acc: Seq<char>) -> (Seq<char>, Seq<char>)
    decreases rest.len(),
{
    if rest.len() == 0 {
        (rest, acc)
    } else {
        let c = rest[0];
        let r = rest.drop_first();
        if c == '"' {
            (r, acc)
        } else if c == '\\' && r.len() > 0 && r[0] == '"' {
            skip_key(r.drop_first(), acc.push('"'))
        } else {
            skip_key(r, acc.push(c))
        }
    }
}

/// The copying of a whole group that starts with `next`, if `next` is an opener.
pub open spec fn skip_groups(next: char, rest: Seq<char>, val: Seq<char>) -> (Seq<char>, Seq<char>) {
    if next == '(' {
        skip_group('(', ')', 1, rest, val.push(next))
    } else if next == '{' {
        skip_group('{', '}', 1, rest, val.push(next))
    } else if next == '[' {
        skip_group('[', ']', 1, rest, val.push(next))
    } else {
        (rest, val)
    }
}

/// `skip_groups` followed by the copying of a quoted string that starts with `next`.
pub open spec fn skip_all(next: char, rest: Seq<char>, val: Seq<char>) -> (Seq<char>, Seq<char>) {
    if next == '"' {
        skip_quoted(rest, val.push(next))
    } else {
        skip_groups(next, rest, val)
    }
}

/// The body of a quoted string whose opening quote has been consumed: up to the closing
/// quote, each backslash kept together with the character after it. `None` where a
/// backslash is the last character, with no character after it to keep.
pub open spec fn quoted_body(rest: Seq<char>, val: Seq<char>) -> Option<Seq<char>>
    decreases rest.len(),
{
    if rest.len() == 0 {
        Some(val)
    } else {
        let c = rest[0];
        let r = rest.drop_first();
        if c == '"' {
            Some(val)
        } else if c == '\\' {
            if r.len() == 0 {
                None
            } else {
                quoted_body(r.drop_first(), val.push(c).push(r[0]))
            }
        } else {
            quoted_body(r, val.push(c))
        }
    }
}

/// The text in front of the first opener: `(rest, prefix, found)`.
pub open spec fn read_prefix(rest: Seq<char>, prefix: Seq<char>) -> (Seq<char>, Seq<char>, bool)
    decreases rest.len(),
{
    if rest.len() == 0 {
        (rest, prefix, false)
    } else if is_opener(rest[0]) {
        (rest, prefix, true)
    } else {
        read_prefix(rest.drop_first(), prefix.push(rest[0]))
    }
}

/// `s` without its trailing whitespace.
pub open spec fn trim_end_spec(s: Seq<char>) -> Seq<char>
    decreases s.len(),
{
    if s.len() > 0 && crate::text::spec_is_whitespace(s.last()) {
        trim_end_spec(s.drop_last())
    } else {
        s
    }
}

/// Sets the value of `k` in an entry list: the first entry with key `k` gets the value, or a
/// new entry is appended.
pub open spec fn entries_insert(
    e: Seq<(Seq<char>, DebugValue)>,
    k: Seq<char>,
    v: DebugValue,
) -> Seq<(Seq<char>, DebugValue)>
    decreases e.len(),
{
    if e.len() == 0 {
        seq![(k, v)]
    } else if e[0].0 == k {
        seq![(k, v)] + e.drop_first()
    } else {
        seq![e[0]] + entries_insert(e.drop_first(), k, v)
    }
}

pub proof fn lemma_skip_group_len(open: char, close: char, depth: int, rest: Seq<char>, acc: Seq<char>)
    ensures
        skip_group(open, close, depth, rest, acc).0.len() <= rest.len(),
        weight(skip_group(open, close, depth, rest, acc).0) + weight(
            skip_group(open, close, depth, rest, acc).1,
        ) == weight(rest) + weight(acc),
    decreases rest.len(),
{
    if rest.len() > 0 {
        let c = rest[0];
        lemma_weight_push(acc, c);
        let d = if c == open {
            depth + 1
        } else if c == close {
            depth - 1
        } else {
            depth
        };
        if d != 0 {
            lemma_skip_group_len(open, close, d, rest.drop_first(), acc.push(c));
        }
    }
}

pub proof fn lemma_skip_quoted_len(rest: Seq<char>, acc: Seq<char>)
    ensures
        skip_quoted(rest, acc).0.len() <= rest.len(),
        weight(skip_quoted(rest, acc).0) + weight(skip_quoted(rest, acc).1) == weight(rest)
            + weight(acc),
    decreases rest.len(),
{
    if rest.len() > 0 {
        let c = rest[0];
        let r = rest.drop_first();
        lemma_weight_push(acc, c);
        if c == '"' {
        } else if c == '\\' && r.len() > 0 && r[0] == '"' {
            lemma_weight_push(acc.push(c), '"');
            assert(weight(r) == weight(r.drop_first()));
            lemma_skip_quoted_len(r.drop_first(), acc.push(c).push('"'));
        } else {
            lemma_skip_quoted_len(r, acc.push(c));
        }
    }
}

pub proof fn lemma_skip_key_len(rest: Seq<char>, acc: Seq<char>)
    ensures
        skip_key(rest, acc).0.len() <= rest.len(),
        weight(skip_key(rest, acc).0) <= weight(rest),
    decreases rest.len(),
{
    if rest.len() > 0 {
        let c = rest[0];
        let r = rest.drop_first();
        if c == '"' {
        } else if c == '\\' && r.len() > 0 && r[0] == '"' {
            assert(weight(r) == weight(r.drop_first()));
            lemma_skip_key_len(r.drop_first(), acc.push('"'));
        } else {
            lemma_skip_key_len(r, acc.push(c));
        }
    }
}

pub proof fn lemma_skip_all(next: char, rest: Seq<char>, val: Seq<char>)
    ensures
        skip_all(next, rest, val).0.len() <= rest.len(),
        skip_groups(next, rest, val).0.len() <= rest.len(),
        !is_opener(next) && next != '"' ==> skip_all(next, rest, val) == (rest, val),
        !is_opener(next) ==> skip_groups(next, rest, val) == (rest, val),
        weight(skip_all(next, rest, val).0) + weight(skip_all(next, rest, val).1) == weight(rest)
            + weight(val),
        weight(skip_groups(next, rest, val).0) + weight(skip_groups(next, rest, val).1) == weight(
            rest,
        ) + weight(val),
{
    lemma_weight_push(val, next);
    if next == '(' {
        lemma_skip_group_len('(', ')', 1, rest, val.push(next));
    } else if next == '{' {
        lemma_skip_group_len('{', '}', 1, rest, val.push(next));
    } else if next == '[' {
        lemma_skip_group_len('[', ']', 1, rest, val.push(next));
    } else if next == '"' {
        lemma_skip_quoted_len(rest, val.push(next));
    }
}

pub proof fn lemma_read_prefix(rest: Seq<char>, prefix: Seq<char>)
    ensures
        read_prefix(rest, prefix).0.len() <= rest.len(),
        weight(read_prefix(rest, prefix).0) <= weight(rest),
        rest.len() > 0 && !is_opener(rest[0]) && counted(rest[0]) ==> weight(
            read_prefix(rest, prefix).0,
        ) < weight(rest),
    decreases rest.len(),
{
    if rest.len() > 0 && !is_opener(rest[0]) {
        lemma_read_prefix(rest.drop_first(), prefix.push(rest[0]));
    }
}

/// The items of a tuple or list whose opener has been consumed. `close` is its closer;
/// each item is read back from the text gathered up to a comma or a closer.
pub open spec fn seq_items(
    close: char,
    rest: Seq<char>,
    val: Seq<char>,
    items: Seq<DebugValue>,
    budget: nat,
) -> Option<Seq<DebugValue>>
    decreases budget, 0nat, rest.len(),
{
    if rest.len() == 0 {
        Some(items)
    } else {
        let next = rest[0];
        let (r, v) = skip_all(next, rest.drop_first(), val);
        proof {
            lemma_skip_all(next, rest.drop_first(), val);
        }
        if next == ' ' {
            seq_items(close, r, v, items, budget)
        } else if next == close || next == ',' {
            if weight(v) < budget {
                match parse_debug(v) {
                    Some(x) => seq_items(close, r, Seq::empty(), items.push(x), budget),
                    None => None,
                }
            } else {
                None
            }
        } else {
            seq_items(close, r, v.push(next), items, budget)
        }
    }
}

/// The entries of a braced map whose `{` has been consumed.
pub open spec fn map_items(
    rest: Seq<char>,
    key: Seq<char>,
    val: Seq<char>,
    into_key: bool,
    entries: Seq<(Seq<char>, DebugValue)>,
    budget: nat,
) -> Option<Seq<(Seq<char>, DebugValue)>>
    decreases budget, 0nat, rest.len(),
{
    if rest.len() == 0 {
        Some(entries)
    } else {
        let next = rest[0];
        let (r1, v1) = skip_groups(next, rest.drop_first(), val);
        proof {
            lemma_skip_all(next, rest.drop_first(), val);
        }
        if into_key && next == '"' {
            let (r2, k2) = skip_key(r1, key);
            proof {
                lemma_skip_key_len(r1, key);
            }
            map_items(r2, k2, v1, false, entries, budget)
        } else {
            let (r2, v2) = if !into_key && next == '"' {
                skip_quoted(r1, v1.push(next))
            } else {
                (r1, v1)
            };
            proof {
                lemma_skip_quoted_len(r1, v1.push(next));
            }
            if next == ' ' {
                map_items(r2, key, v2, into_key, entries, budget)
            } else if next == ':' {
                let r3 = if r2.len() > 0 && r2[0] == ' ' {
                    r2.drop_first()
                } else {
                    r2
                };
                map_items(r3, key, v2, false, entries, budget)
            } else if next == '}' || next == ',' {
                if weight(v2) < budget {
                    match parse_debug(v2) {
                        Some(x) => map_items(
                            r2,
                            Seq::empty(),
                            Seq::empty(),
                            true,
                            entries_insert(entries, key, x),
                            budget,
                        ),
                        None => None,
                    }
                } else {
                    None
                }
            } else if into_key {
                map_items(r2, key.push(next), v2, into_key, entries, budget)
            } else {
                map_items(r2, key, v2.push(next), into_key, entries, budget)
            }
        }
    }
}

/// What reading the `Debug` rendering `s` gives; `None` where a quoted string in it ends in a
/// lone backslash.
pub open spec fn parse_debug(s: Seq<char>) -> Option<DebugValue>
    decreases weight(s), 1nat, 0nat,
{
    if s.len() > 0 && s[0] == '"' {
        match quoted_body(s.drop_first(), Seq::empty()) {
            Some(t) => Some(DebugValue::Text(t)),
            None => None,
        }
    } else if s.len() > 0 && s[0] == '(' {
        match seq_items(')', s.drop_first(), Seq::empty(), Seq::empty(), weight(s)) {
            Some(items) => Some(DebugValue::List(items)),
            None => None,
        }
    } else if s.len() > 0 && s[0] == '[' {
        match seq_items(']', s.drop_first(), Seq::empty(), Seq::empty(), weight(s)) {
            Some(items) => Some(DebugValue::List(items)),
            None => None,
        }
    } else if s.len() > 0 && s[0] == '{' {
        match map_items(s.drop_first(), Seq::empty(), Seq::empty(), true, Seq::empty(), weight(s)) {
            Some(e) => Some(DebugValue::Entries(e)),
            None => None,
        }
    } else {
        let (r, p, named) = read_prefix(s, Seq::empty());
        if named {
            let r2 = if r.len() > 0 && r[0] == ' ' {
                r.drop_first()
            } else {
                r
            };
            let name = if p.len() > 0 && p.last() == ' ' {
                trim_end_spec(p)
            } else {
                p
            };
            if weight(r2) < weight(s) {
                match parse_debug(r2) {
                    Some(x) => Some(DebugValue::Named(name, Box::new(x))),
                    None => None,
                }
            } else {
                None
            }
        } else {
            Some(DebugValue::Other(p))
        }
    }
}

} // verus!
