use vstd::prelude::*;
use crate::debug_spec::{skip_group, skip_key, skip_quoted};
use crate::text::{chars_of, string_push};

verus! {

/// A cursor over the characters of a text, with one character of lookahead.
pub struct ParsingStream {
    chars: Vec<char>,
    pos: usize,
}

impl View for ParsingStream {
    type V = Seq<char>;

    /// The characters not yet read.
    closed spec fn view(&self) -> Seq<char> {
        self.chars@.skip(self.pos as int)
    }
}

impl ParsingStream {
    #[verifier::type_invariant]
    spec fn inv(self) -> bool {
        self.pos <= self.chars.len()
    }

    /// A stream over the characters of `s`.
    pub fn new(s: &str) -> (r: Self)
        ensures
            r@ == s@,
    {
        let chars = chars_of(s);
        let r = ParsingStream { chars, pos: 0 };
        assert(r.chars@.skip(0) =~= r.chars@);
        r
    }

    /// The next character, without reading it.
    pub fn peek(&mut self) -> (r: Option<&char>)
        ensures
            final(self)@ == old(self)@,
            r == (if old(self)@.len() > 0 {
                Some(&old(self)@[0])
            } else {
                None
            }),
    {
        proof {
            use_type_invariant(&*self);
        }
        if self.pos < self.chars.len() {
            Some(&self.chars[self.pos])
        } else {
            None
        }
    }

    /// Reads the next character.
    pub fn next(&mut self) -> (r: Option<char>)
        ensures
            old(self)@.len() > 0 ==> r == Some(old(self)@[0]) && final(self)@ == old(
                self,
            )@.drop_first(),
            old(self)@.len() == 0 ==> r is None && final(self)@ == old(self)@,
    {
        proof {
            use_type_invariant(&*self);
        }
        if self.pos < self.chars.len() {
            let c = self.chars[self.pos];
            proof {
                assert(self.chars@.skip(self.pos + 1) =~= self.chars@.skip(
                    self.pos as int,
                ).drop_first());
            }
            self.pos = self.pos + 1;
            Some(c)
        } else {
            None
        }
    }

    /// Where `next` is a double quote, reads the rest of a quoted key into `key`: up to the
    /// closing quote, which is dropped; an escaped quote (`\"`) adds just the quote.
    pub fn skip_str_into_key(&mut self, key: &mut String, next: char)
        ensures
            next == '"' ==> (final(self)@, final(key)@) == skip_key(old(self)@, old(key)@),
            next != '"' ==> final(self)@ == old(self)@ && final(key)@ == old(key)@,
    {
        if next == '"' {
            loop
                invariant_except_break
                    skip_key(self@, key@) == skip_key(old(self)@, old(key)@),
                ensures
                    (self@, key@) == skip_key(old(self)@, old(key)@),
                decreases self@.len(),
            {
                let ghost before = self@;
                let ghost kbefore = key@;
                match self.next() {
                    None => {
                        break ;
                    },
                    Some(c) => {
                        if c == '"' {
                            break ;
                        }
                        let is_escape = if c == '\\' {
                            match self.peek() {
                                Some(p) => *p == '"',
                                None => false,
                            }
                        } else {
                            false
                        };
                        if is_escape {
                            let q = self.next();
                            match q {
                                Some(q) => {
                                    string_push(key, q);
                                },
                                None => {},
                            }
                            continue ;
                        }
                        string_push(key, c);
                    },
                }
            }
        }
    }

    /// Where `next` is a double quote, copies it and the rest of a quoted string into `val`,
    /// up to and including the closing quote; an escaped quote is copied whole.
    pub fn skip_str(&mut self, val: &mut String, next: char)
        ensures
            next == '"' ==> (final(self)@, final(val)@) == skip_quoted(
                old(self)@,
                old(val)@.push(next),
            ),
            next != '"' ==> final(self)@ == old(self)@ && final(val)@ == old(val)@,
    {
        if next == '"' {
            string_push(val, next);
            loop
                invariant_except_break
                    skip_quoted(self@, val@) == skip_quoted(old(self)@, old(val)@.push(next)),
                ensures
                    (self@, val@) == skip_quoted(old(self)@, old(val)@.push(next)),
                decreases self@.len(),
            {
                match self.next() {
                    None => {
                        break ;
                    },
                    Some(c) => {
                        if c == '"' {
                            string_push(val, c);
                            break ;
                        }
                        string_push(val, c);
                        let is_escape = if c == '\\' {
                            match self.peek() {
                                Some(p) => *p == '"',
                                None => false,
                            }
                        } else {
                            false
                        };
                        if is_escape {
                            match self.next() {
                                Some(q) => {
                                    string_push(val, q);
                                },
                                None => {},
                            }
                        }
                    },
                }
            }
        }
    }

    /// Where `next` is the opener `open`, copies it and the rest of the group into `val`, up
    /// to and including the `close` that balances it (or to the end of the text).
    pub fn skip(&mut self, open: char, close: char, val: &mut String, next: char)
        requires
            open != close,
        ensures
            next == open ==> (final(self)@, final(val)@) == skip_group(
                open,
                close,
                1,
                old(self)@,
                old(val)@.push(next),
            ),
            next != open ==> final(self)@ == old(self)@ && final(val)@ == old(val)@,
    {
        if next == open {
            string_push(val, next);
            let mut op: u128 = 1;
            proof {
                use_type_invariant(&*self);
            }
            loop
                invariant_except_break
                    1 <= op <= old(self)@.len() - self@.len() + 1,
                    old(self)@.len() <= usize::MAX,
                    self@.len() <= old(self)@.len(),
                    skip_group(open, close, op as int, self@, val@) == skip_group(
                        open,
                        close,
                        1,
                        old(self)@,
                        old(val)@.push(next),
                    ),
                ensures
                    (self@, val@) == skip_group(open, close, 1, old(self)@, old(val)@.push(next)),
                decreases self@.len(),
            {
                proof {
                    use_type_invariant(&*self);
                }
                match self.next() {
                    None => {
                        break ;
                    },
                    Some(c) => {
                        if c == open {
                            op = op + 1;
                        } else if c == close {
                            op = op - 1;
                        }
                        string_push(val, c);
                        if op == 0 {
                            break ;
                        }
                    },
                }
            }
        }
    }
}

} // verus!
