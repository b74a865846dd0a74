use vstd::prelude::*;
use crate::debug_output::{
    entries_of, insert_entry, lemma_values_of_push, values_of, DebugOutput,
};
use crate::debug_spec::{
    map_items, parse_debug, quoted_body, read_prefix, seq_items, weight, DebugValue,
};
use crate::stream::ParsingStream;
use crate::text::{string_push, trim_end_string};

verus! {

/// Empties `s`, handing back what it held.
fn take_string(s: &mut String) -> (r: String)
    ensures
        r@ == old(s)@,
        final(s)@ == Seq::<char>::empty(),
{
    let mut r = String::new();
    std::mem::swap(&mut r, s);
    r
}

/// Reads the items of a tuple (`close` is `)`) or of a list (`close` is `]`) whose opener has
/// been read: each item is the text up to a comma or a closer, read back by `str_to_debug`.
fn read_items(input: &mut ParsingStream, close: char, Ghost(budget): Ghost<nat>) -> (r: Option<
    Vec<DebugOutput>,
>)
    requires
        weight(old(input)@) <= budget,
        close == ')' || close == ']',
    ensures
        seq_items(close, old(input)@, Seq::empty(), Seq::empty(), budget) == match r {
            Some(v) => Some(values_of(v@)),
            None => None,
        },
    decreases budget, 0nat,
{
    let ghost target = seq_items(close, input@, Seq::empty(), Seq::empty(), budget);
    let mut val = String::new();
    let mut res: Vec<DebugOutput> = Vec::new();
    loop
        invariant_except_break
            close == ')' || close == ']',
            target == seq_items(close, old(input)@, Seq::empty(), Seq::empty(), budget),
            seq_items(close, input@, val@, values_of(res@), budget) == target,
            weight(val@) + weight(input@) <= budget,
        ensures
            target == Some(values_of(res@)),
        decreases input@.len(),
    {
        let ghost before = input@;
        let ghost vbefore = val@;
        match input.next() {
            None => {
                break ;
            },
            Some(next) => {
                proof {
                    crate::debug_spec::lemma_skip_all(next, before.drop_first(), vbefore);
                }
                input.skip('(', ')', &mut val, next);
                input.skip('{', '}', &mut val, next);
                input.skip('[', ']', &mut val, next);
                input.skip_str(&mut val, next);
                if next == ' ' {
                    continue ;
                }
                if next == close || next == ',' {
                    let taken = take_string(&mut val);
                    let item = read_debug(ParsingStream::new(taken.as_str()));
                    match item {
                        Some(x) => {
                            proof {
                                lemma_values_of_push(res@, x);
                            }
                            res.push(x);
                        },
                        None => {
                            return None;
                        },
                    }
                } else {
                    proof {
                        crate::debug_spec::lemma_weight_push(val@, next);
                    }
                    string_push(&mut val, next);
                }
            },
        }
    }
    Some(res)
}

/// Reads the entries of a braced map whose `{` has been read: `key: value` pairs separated
/// by commas; a value is read back by `str_to_debug`, and a repeated key keeps the last value.
fn read_entries(input: &mut ParsingStream, Ghost(budget): Ghost<nat>) -> (r: Option<
    Vec<(String, DebugOutput)>,
>)
    requires
        weight(old(input)@) <= budget,
    ensures
        map_items(old(input)@, Seq::empty(), Seq::empty(), true, Seq::empty(), budget) == match r {
            Some(v) => Some(entries_of(v@)),
            None => None,
        },
    decreases budget, 0nat,
{
    let ghost target = map_items(input@, Seq::empty(), Seq::empty(), true, Seq::empty(), budget);
    let mut key = String::new();
    let mut val = String::new();
    let mut into_key = true;
    let mut res: Vec<(String, DebugOutput)> = Vec::new();
    loop
        invariant_except_break
            target == map_items(old(input)@, Seq::empty(), Seq::empty(), true, Seq::empty(), budget),
            map_items(input@, key@, val@, into_key, entries_of(res@), budget) == target,
            weight(val@) + weight(input@) <= budget,
        ensures
            target == Some(entries_of(res@)),
        decreases input@.len(),
    {
        let ghost before = input@;
        let ghost vbefore = val@;
        match input.next() {
            None => {
                break ;
            },
            Some(next) => {
                proof {
                    crate::debug_spec::lemma_skip_all(next, before.drop_first(), vbefore);
                }
                input.skip('(', ')', &mut val, next);
                input.skip('{', '}', &mut val, next);
                input.skip('[', ']', &mut val, next);
                if into_key {
                    proof {
                        crate::debug_spec::lemma_skip_key_len(input@, key@);
                    }
                    input.skip_str_into_key(&mut key, next);
                    if next == '"' {
                        into_key = false;
                        continue ;
                    }
                } else {
                    input.skip_str(&mut val, next);
                }
                if next == ' ' {
                    continue ;
                }
                if next == ':' {
                    into_key = false;
                    let is_space = match input.peek() {
                        Some(c) => *c == ' ',
                        None => false,
                    };
                    if is_space {
                        proof {
                            assert(weight(input@) >= weight(input@.drop_first()));
                        }
                        input.next();
                    }
                } else if next == '}' || next == ',' {
                    into_key = true;
                    let k = take_string(&mut key);
                    let taken = take_string(&mut val);
                    let item = read_debug(ParsingStream::new(taken.as_str()));
                    match item {
                        Some(x) => {
                            insert_entry(&mut res, k, x);
                        },
                        None => {
                            return None;
                        },
                    }
                } else {
                    if into_key {
                        string_push(&mut key, next);
                    } else {
                        proof {
                            crate::debug_spec::lemma_weight_push(val@, next);
                        }
                        string_push(&mut val, next);
                    }
                }
            },
        }
    }
    Some(res)
}

/// Reads back the `Debug` rendering held by `input`: a quoted string, a tuple `( .. )`, a
/// list `[ .. ]`, a map `{ k: v, .. }`, a name in front of one of these, or other text.
/// The reading never fails but where a quoted string ends in a lone backslash: there a
/// character after the backslash is wanted and is not there, and the result is `None`.
fn read_debug(input: ParsingStream) -> (r: Option<DebugOutput>)
    ensures
        parse_debug(input@) == match r {
            Some(x) => Some(x.value()),
            None => None,
        },
    decreases weight(input@), 1nat,
{
    let mut input = input;
    let ghost s = input@;
    let first: Option<char> = match input.peek() {
        Some(c) => Some(*c),
        None => None,
    };
    if first == Some('"') {
        let mut val = String::new();
        let mut failed = false;
        input.next();
        let ghost target = quoted_body(input@, Seq::empty());
        assert(target == quoted_body(s.drop_first(), Seq::empty()));
        loop
            invariant_except_break
                quoted_body(input@, val@) == target,
                !failed,
            ensures
                failed ==> target is None,
                !failed ==> target == Some(val@),
            decreases input@.len(),
        {
            match input.next() {
                None => {
                    break ;
                },
                Some(next) => {
                    if next == '"' {
                        break ;
                    }
                    if next == '\\' {
                        string_push(&mut val, next);
                        match input.next() {
                            Some(q) => {
                                string_push(&mut val, q);
                            },
                            None => {
                                failed = true;
                                break ;
                            },
                        }
                    } else {
                        string_push(&mut val, next);
                    }
                },
            }
        }
        if failed {
            return None;
        }
        return Some(DebugOutput::String(val));
    }
    if first == Some('(') {
        input.next();
        let res = read_items(&mut input, ')', Ghost(weight(s)));
        return match res {
            Some(v) => Some(DebugOutput::Vec(v)),
            None => None,
        };
    }
    // [] should behave the exact same as ()
    if first == Some('[') {
        input.next();
        let res = read_items(&mut input, ']', Ghost(weight(s)));
        return match res {
            Some(v) => Some(DebugOutput::Vec(v)),
            None => None,
        };
    }
    if first == Some('{') {
        input.next();
        let res = read_entries(&mut input, Ghost(weight(s)));
        return match res {
            Some(v) => Some(DebugOutput::Entries(v)),
            None => None,
        };
    }
    let mut prefix = String::new();
    let mut last: Option<char> = None;
    let mut is_named = false;
    let ghost target = read_prefix(s, Seq::empty());
    loop
        invariant_except_break
            !is_named,
            read_prefix(input@, prefix@) == target,
            last == (if prefix@.len() > 0 {
                Some(prefix@.last())
            } else {
                None
            }),
        ensures
            target == (input@, prefix@, is_named),
            last == (if prefix@.len() > 0 {
                Some(prefix@.last())
            } else {
                None
            }),
        decreases input@.len(),
    {
        let next: Option<char> = match input.peek() {
            Some(c) => Some(*c),
            None => None,
        };
        match next {
            None => {
                break ;
            },
            Some(c) => {
                if c == '[' || c == '(' || c == '{' {
                    is_named = true;
                    break ;
                }
                let n = input.next().unwrap();
                string_push(&mut prefix, n);
                last = Some(n);
            },
        }
    }
    if is_named {
        let is_space = match input.peek() {
            Some(c) => *c == ' ',
            None => false,
        };
        if is_space {
            input.next();
        }
        let name = match last {
            Some(' ') => trim_end_string(&prefix),
            _ => prefix,
        };
        proof {
            crate::debug_spec::lemma_read_prefix(s, Seq::empty());
        }
        let inner = read_debug(input);
        match inner {
            Some(x) => Some(DebugOutput::Named(name, Box::new(x))),
            None => None,
        }
    } else {
        Some(DebugOutput::Other(prefix))
    }
}

/// Reads back the `Debug` rendering held by `input`: a quoted string, a tuple `( .. )`, a
/// list `[ .. ]`, a map `{ k: v, .. }`, a name in front of one of these, or other text.
/// A quoted string that ends in a lone backslash cannot be read back; `requires` leaves such
/// input out, and `try_str_to_debug` gives `None` for it.
pub fn str_to_debug(input: ParsingStream) -> (r: Result<DebugOutput, &'static str>)
    requires
        parse_debug(input@) is Some,
    ensures
        r matches Ok(x) && Some(x.value()) == parse_debug(input@),
{
    match read_debug(input) {
        Some(x) => Ok(x),
        None => Err("a quoted string ends in a lone backslash"),
    }
}

/// Reads back the `Debug` rendering `s`: `None` exactly where a quoted string in it ends in a
/// lone backslash, the input that `str_to_debug` leaves out.
pub fn try_str_to_debug(s: &str) -> (r: Option<DebugOutput>)
    ensures
        parse_debug(s@) == match r {
            Some(x) => Some(x.value()),
            None => None,
        },
{
    read_debug(ParsingStream::new(s))
}

} // verus!
