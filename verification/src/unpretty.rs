use vstd::prelude::*;
use crate::pretty::{drop_ws, lemma_drop_ws, skip_white_space};
use crate::stream::ParsingStream;
use crate::text::{is_whitespace_char, spec_is_whitespace, string_push};

verus! {

/// A text with its whitespace made compact (see `UnPretty`).
pub struct UnPrettyStr(String);

impl UnPrettyStr {
    /// The text held.
    pub closed spec fn text(self) -> Seq<char> {
        self.0@
    }

    /// Hands back the text held.
    pub fn into_string(self) -> (r: String)
        ensures
            r@ == self.text(),
    {
        self.0
    }

    /// Holds `s` as it is.
    pub fn from_string(s: String) -> (r: Self)
        ensures
            r.text() == s@,
    {
        UnPrettyStr(s)
    }
}

/// The text with each run of whitespace made one space, except that a run is dropped where
/// a `)` follows it or a `(` precedes it.
pub open spec fn compact(s: Seq<char>) -> Seq<char>
    decreases s.len(),
{
    if s.len() == 0 {
        Seq::empty()
    } else {
        let c = s[0];
        let r = s.drop_first();
        proof {
            lemma_drop_ws(r);
        }
        if spec_is_whitespace(c) {
            let r2 = drop_ws(r);
            if r2.len() > 0 && r2[0] == ')' {
                compact(r2)
            } else {
                seq![' '] + compact(r2)
            }
        } else if c == '(' {
            seq!['('] + compact(drop_ws(r))
        } else {
            seq![c] + compact(r)
        }
    }
}

/// `compact` of `input`.
fn compact_text(input: &str) -> (r: String)
    ensures
        r@ == compact(input@),
{
    let mut res = String::new();
    let mut peek = ParsingStream::new(input);
    loop
        invariant
            res@ + compact(peek@) == compact(input@),
        ensures
            res@ == compact(input@),
        decreases peek@.len(),
    {
        let ghost before = peek@;
        match peek.next() {
            None => {
                assert(res@ + compact(before) =~= res@);
                break ;
            },
            Some(c) => {
                proof {
                    lemma_drop_ws(before.drop_first());
                }
                if is_whitespace_char(c) {
                    skip_white_space(&mut peek);
                    let close = match peek.peek() {
                        Some(next) => *next == ')',
                        None => false,
                    };
                    if close {
                        continue ;
                    }
                    let ghost r = res@;
                    string_push(&mut res, ' ');
                    assert(res@ + compact(peek@) =~= r + (seq![' '] + compact(peek@)));
                    continue ;
                }
                if c == '(' {
                    skip_white_space(&mut peek);
                    let ghost r = res@;
                    string_push(&mut res, c);
                    assert(res@ + compact(peek@) =~= r + (seq!['('] + compact(peek@)));
                    continue ;
                }
                let ghost r = res@;
                string_push(&mut res, c);
                assert(res@ + compact(peek@) =~= r + (seq![c] + compact(peek@)));
            },
        }
    }
    res
}

/// Makes whitespace compact for comparing texts: each run of whitespace becomes one space,
/// except where a `)` follows it or a `(` precedes it, and the ends are trimmed.
pub trait UnPretty {
    fn un_pretty(self) -> UnPrettyStr;
}

impl<'a> UnPretty for &'a str {
    fn un_pretty(self) -> (r: UnPrettyStr)
        ensures
            r.text() == crate::text::trim_spec(compact(self@)),
    {
        let result = compact_text(self);
        UnPrettyStr(crate::text::trim_string(&result))
    }
}


/// A compact text: its only whitespace is single spaces, never two side by side.
pub open spec fn is_compact(t: Seq<char>) -> bool {
    forall|i: int|
        0 <= i < t.len() && #[trigger] spec_is_whitespace(t[i]) ==> t[i] == ' ' && (i + 1 < t.len()
            ==> !spec_is_whitespace(t[i + 1]))
}

proof fn lemma_compact_shape(s: Seq<char>)
    ensures
        is_compact(compact(s)),
        s.len() == 0 ==> compact(s).len() == 0,
        s.len() > 0 && !spec_is_whitespace(s[0]) ==> compact(s).len() > 0 && compact(s)[0] == s[0],
    decreases s.len(),
{
    if s.len() > 0 {
        let c = s[0];
        let r = s.drop_first();
        lemma_drop_ws(r);
        let r2 = drop_ws(r);
        if spec_is_whitespace(c) {
            lemma_compact_shape(r2);
            if !(r2.len() > 0 && r2[0] == ')') {
                let p = compact(r2);
                let t = seq![' '] + p;
                assert(spec_is_whitespace(' '));
                assert forall|i: int|
                    0 <= i < t.len() && #[trigger] spec_is_whitespace(t[i]) implies t[i] == ' ' && (i
                    + 1 < t.len() ==> !spec_is_whitespace(t[i + 1])) by {
                    if i > 0 {
                        assert(t[i] == p[i - 1]);
                    }
                    if i + 1 < t.len() {
                        assert(t[i + 1] == p[i]);
                    }
                }
            }
        } else if c == '(' {
            lemma_compact_shape(r2);
            let p = compact(r2);
            let t = seq!['('] + p;
            assert forall|i: int|
                0 <= i < t.len() && #[trigger] spec_is_whitespace(t[i]) implies t[i] == ' ' && (i + 1
                < t.len() ==> !spec_is_whitespace(t[i + 1])) by {
                assert(t[i] == p[i - 1]);
                if i + 1 < t.len() {
                    assert(t[i + 1] == p[i]);
                }
            }
        } else {
            lemma_compact_shape(r);
            let p = compact(r);
            let t = seq![c] + p;
            assert forall|i: int|
                0 <= i < t.len() && #[trigger] spec_is_whitespace(t[i]) implies t[i] == ' ' && (i + 1
                < t.len() ==> !spec_is_whitespace(t[i + 1])) by {
                assert(t[i] == p[i - 1]);
                if i + 1 < t.len() {
                    assert(t[i + 1] == p[i]);
                }
            }
        }
    }
}

proof fn lemma_trim_keeps_compact(t: Seq<char>)
    requires
        is_compact(t),
    ensures
        is_compact(crate::text::trim_spec(t)),
{
    lemma_trim_end_keeps(t);
    lemma_trim_start_keeps(crate::debug_spec::trim_end_spec(t));
}

proof fn lemma_trim_end_keeps(t: Seq<char>)
    requires
        is_compact(t),
    ensures
        is_compact(crate::debug_spec::trim_end_spec(t)),
    decreases t.len(),
{
    if t.len() > 0 && spec_is_whitespace(t.last()) {
        let u = t.drop_last();
        assert forall|i: int|
            0 <= i < u.len() && #[trigger] spec_is_whitespace(u[i]) implies u[i] == ' ' && (i + 1
            < u.len() ==> !spec_is_whitespace(u[i + 1])) by {
            assert(u[i] == t[i]);
            assert(spec_is_whitespace(t[i]));
            if i + 1 < u.len() {
                assert(u[i + 1] == t[i + 1]);
            }
        }
        lemma_trim_end_keeps(u);
    }
}

proof fn lemma_trim_start_keeps(t: Seq<char>)
    requires
        is_compact(t),
    ensures
        is_compact(crate::text::trim_start_spec(t)),
    decreases t.len(),
{
    if t.len() > 0 && spec_is_whitespace(t[0]) {
        let u = t.drop_first();
        assert forall|i: int|
            0 <= i < u.len() && #[trigger] spec_is_whitespace(u[i]) implies u[i] == ' ' && (i + 1
            < u.len() ==> !spec_is_whitespace(u[i + 1])) by {
            assert(u[i] == t[i + 1]);
            assert(spec_is_whitespace(t[i + 1]));
            if i + 1 < u.len() {
                assert(u[i + 1] == t[i + 2]);
            }
        }
        lemma_trim_start_keeps(u);
    }
}

/// After `un_pretty` the only whitespace left is single spaces: every whitespace character
/// of the compact text is `' '`, and no two of them stand side by side.
pub proof fn law_un_pretty_single_spaces(s: Seq<char>)
    ensures
        is_compact(crate::text::trim_spec(compact(s))),
{
    lemma_compact_shape(s);
    lemma_trim_keeps_compact(compact(s));
}

proof fn lemma_compact_keeps(s: Seq<char>)
    ensures
        crate::pretty::non_ws(compact(s)) == crate::pretty::non_ws(s),
    decreases s.len(),
{
    if s.len() > 0 {
        let c = s[0];
        let r = s.drop_first();
        lemma_drop_ws(r);
        let r2 = drop_ws(r);
        crate::pretty::lemma_non_ws_drop(r);
        if spec_is_whitespace(c) {
            lemma_compact_keeps(r2);
            if !(r2.len() > 0 && r2[0] == ')') {
                let p = compact(r2);
                assert((seq![' '] + p).drop_first() =~= p);
                assert((seq![' '] + p)[0] == ' ');
                assert(spec_is_whitespace(' '));
            }
        } else if c == '(' {
            lemma_compact_keeps(r2);
            let p = compact(r2);
            assert((seq!['('] + p).drop_first() =~= p);
            assert(crate::pretty::non_ws(s) == seq!['('] + crate::pretty::non_ws(r));
        } else {
            lemma_compact_keeps(r);
            let p = compact(r);
            assert((seq![c] + p).drop_first() =~= p);
        }
    }
}

/// Making whitespace compact keeps every character that is not whitespace, in order.
pub proof fn law_compact_keeps_text(s: Seq<char>)
    ensures
        crate::pretty::non_ws(compact(s)) == crate::pretty::non_ws(s),
{
    lemma_compact_keeps(s);
}


/// Between two words, any run of whitespace (a newline, a tab, several of them) is read as
/// one space: `un_pretty` of a word, the run and a word is the two words with one space.
pub proof fn law_un_pretty_word_gap(a: char, w: Seq<char>, b: char)
    requires
        !spec_is_whitespace(a) && a != '(',
        !spec_is_whitespace(b) && b != ')',
        w.len() > 0 && crate::pretty::all_ws(w),
    ensures
        crate::text::trim_spec(compact(seq![a] + w + seq![b])) == seq![a, ' ', b],
{
    let s = seq![a] + w + seq![b];
    let r = s.drop_first();
    assert(r =~= w + seq![b]);
    assert(spec_is_whitespace(r[0]));
    assert(r.drop_first() =~= w.drop_first() + seq![b]);
    assert(crate::pretty::all_ws(w.drop_first()));
    crate::pretty::lemma_gap_free(w.drop_first(), seq![b]);
    let tail = seq![b];
    assert(tail.drop_first() =~= Seq::<char>::empty());
    assert(drop_ws(Seq::<char>::empty()) =~= Seq::<char>::empty());
    assert(compact(Seq::<char>::empty()) =~= Seq::<char>::empty());
    assert(compact(tail) =~= seq![b]);
    assert(compact(r) =~= seq![' ', b]);
    assert(compact(s) =~= seq![a, ' ', b]);
    let t = seq![a, ' ', b];
    assert(crate::debug_spec::trim_end_spec(t) == t);
    assert(crate::text::trim_start_spec(t) == t);
}

} // verus!
