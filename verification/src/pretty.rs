use vstd::prelude::*;
use crate::stream::ParsingStream;
use crate::text::{is_whitespace_char, spec_is_whitespace, string_push};

verus! {

/// `s` without its leading whitespace.
pub open spec fn drop_ws(s: Seq<char>) -> Seq<char>
    decreases s.len(),
{
    if s.len() > 0 && spec_is_whitespace(s[0]) {
        drop_ws(s.drop_first())
    } else {
        s
    }
}

pub proof fn lemma_drop_ws(s: Seq<char>)
    ensures
        drop_ws(s).len() <= s.len(),
        drop_ws(s).len() > 0 ==> !spec_is_whitespace(drop_ws(s)[0]),
        drop_ws(s).len() == s.len() ==> drop_ws(s) == s,
    decreases s.len(),
{
    if s.len() > 0 && spec_is_whitespace(s[0]) {
        lemma_drop_ws(s.drop_first());
    }
}

/// The symbols next to which whitespace does not count: `( { [ ] } ) : , ;`.
pub open spec fn is_symbol(c: char) -> bool {
    c == '(' || c == '{' || c == '[' || c == ']' || c == '}' || c == ')' || c == ':' || c == ','
        || c == ';'
}

/// Whether `c` is one of the symbols of `is_symbol`.
pub fn is_symbol_char(c: char) -> (r: bool)
    ensures
        r == is_symbol(c),
{
    c == '(' || c == '{' || c == '[' || c == ']' || c == '}' || c == ')' || c == ':' || c == ','
        || c == ';'
}

/// The pretty form of a text that is empty or begins with a character that is not
/// whitespace (see `pretty`).
pub open spec fn pretty_from(s: Seq<char>) -> Seq<char>
    decreases s.len(),
{
    if s.len() == 0 {
        Seq::empty()
    } else {
        let c = s[0];
        let r = s.drop_first();
        proof {
            lemma_drop_ws(r);
        }
        let r2 = drop_ws(r);
        if r2.len() < r.len() {
            if r2.len() == 0 {
                seq![c]
            } else if is_symbol(c) || is_symbol(r2[0]) {
                seq![c] + pretty_from(r2)
            } else {
                seq![c, ' '] + pretty_from(r2)
            }
        } else {
            seq![c] + pretty_from(r)
        }
    }
}

/// The form in which texts are compared with their layout ignored: whitespace at either end
/// and next to a symbol (`( { [ ] } ) : , ;`) is dropped, and each other run of whitespace,
/// which stands between two other characters, becomes one space.
pub open spec fn pretty(s: Seq<char>) -> Seq<char> {
    pretty_from(drop_ws(s))
}

/// Reads past the whitespace at the front of `iter`.
pub fn skip_white_space(iter: &mut ParsingStream)
    ensures
        final(iter)@ == drop_ws(old(iter)@),
{
    loop
        invariant
            drop_ws(iter@) == drop_ws(old(iter)@),
        ensures
            iter@ == drop_ws(old(iter)@),
        decreases iter@.len(),
    {
        let ws = match iter.peek() {
            Some(c) => is_whitespace_char(*c),
            None => false,
        };
        if ws {
            iter.next();
        } else {
            break ;
        }
    }
}

/// `pretty` of `input`: the form in which `pretty_compare` compares two texts.
pub fn pretty_comapre_fn(input: &str) -> (r: String)
    ensures
        r@ == pretty(input@),
{
    let mut res = String::new();
    let mut peakable = ParsingStream::new(input);
    skip_white_space(&mut peakable);
    proof {
        lemma_drop_ws(input@);
    }
    loop
        invariant
            res@ + pretty_from(peakable@) == pretty(input@),
            peakable@.len() > 0 ==> !spec_is_whitespace(peakable@[0]),
        ensures
            res@ == pretty(input@),
        decreases peakable@.len(),
    {
        let ghost before = peakable@;
        match peakable.next() {
            None => {
                assert(res@ + pretty_from(before) =~= res@);
                break ;
            },
            Some(c) => {
                let ghost r = peakable@;
                proof {
                    lemma_drop_ws(r);
                }
                let ws_next = match peakable.peek() {
                    Some(n) => is_whitespace_char(*n),
                    None => false,
                };
                let ghost pre = res@;
                string_push(&mut res, c);
                if ws_next {
                    skip_white_space(&mut peakable);
                    proof {
                        lemma_drop_ws(r.drop_first());
                    }
                    let spaced = match peakable.peek() {
                        Some(n) => !(is_symbol_char(c) || is_symbol_char(*n)),
                        None => false,
                    };
                    if spaced {
                        string_push(&mut res, ' ');
                        assert(res@ + pretty_from(peakable@) =~= pre + (seq![c, ' '] + pretty_from(
                            peakable@,
                        )));
                    } else {
                        assert(res@ + pretty_from(peakable@) =~= pre + (seq![c] + pretty_from(
                            peakable@,
                        )));
                    }
                } else {
                    assert(drop_ws(r) == r);
                    assert(res@ + pretty_from(peakable@) =~= pre + (seq![c] + pretty_from(
                        peakable@,
                    )));
                }
            },
        }
    }
    res
}

/// Whether `expect` and `tobe` agree once each has been made `pretty`: the comparison of
/// displayed texts that ignores how whitespace is laid out.
pub fn pretty_compare(expect: &str, tobe: &str) -> (r: bool)
    ensures
        r == (pretty(expect@) == pretty(tobe@)),
{
    let expect = pretty_comapre_fn(expect);
    let tobe = pretty_comapre_fn(tobe);
    expect == tobe
}


/// A text in pretty form: no whitespace at either end, and whitespace only as single spaces
/// between two characters that are neither whitespace nor symbols.
pub open spec fn is_pretty(t: Seq<char>) -> bool {
    forall|i: int|
        0 <= i < t.len() && #[trigger] spec_is_whitespace(t[i]) ==> {
            &&& t[i] == ' '
            &&& 0 < i < t.len() - 1
            &&& !spec_is_whitespace(t[i - 1]) && !is_symbol(t[i - 1])
            &&& !spec_is_whitespace(t[i + 1]) && !is_symbol(t[i + 1])
        }
}

proof fn lemma_pretty_from_shape(s: Seq<char>)
    requires
        s.len() == 0 || !spec_is_whitespace(s[0]),
    ensures
        is_pretty(pretty_from(s)),
        pretty_from(s).len() == 0 <==> s.len() == 0,
        s.len() > 0 ==> pretty_from(s)[0] == s[0],
    decreases s.len(),
{
    if s.len() > 0 {
        let c = s[0];
        let r = s.drop_first();
        lemma_drop_ws(r);
        let r2 = drop_ws(r);
        if r2.len() < r.len() {
            if r2.len() == 0 {
                assert(is_pretty(seq![c]));
            } else {
                lemma_pretty_from_shape(r2);
                let p = pretty_from(r2);
                if is_symbol(c) || is_symbol(r2[0]) {
                    let t = seq![c] + p;
                    assert forall|i: int| 0 <= i < t.len() && #[trigger] spec_is_whitespace(t[i]) implies {
                        &&& t[i] == ' '
                        &&& 0 < i < t.len() - 1
                        &&& !spec_is_whitespace(t[i - 1]) && !is_symbol(t[i - 1])
                        &&& !spec_is_whitespace(t[i + 1]) && !is_symbol(t[i + 1])
                    } by {
                        assert(t[i] == p[i - 1]);
                        assert(spec_is_whitespace(p[i - 1]));
                        assert(t[i + 1] == p[i]);
                        assert(t[i - 1] == p[i - 2]);
                    }
                } else {
                    let t = seq![c, ' '] + p;
                    assert forall|i: int| 0 <= i < t.len() && #[trigger] spec_is_whitespace(t[i]) implies {
                        &&& t[i] == ' '
                        &&& 0 < i < t.len() - 1
                        &&& !spec_is_whitespace(t[i - 1]) && !is_symbol(t[i - 1])
                        &&& !spec_is_whitespace(t[i + 1]) && !is_symbol(t[i + 1])
                    } by {
                        if i == 1 {
                            assert(t[2] == p[0]);
                        } else {
                            assert(t[i] == p[i - 2]);
                            assert(spec_is_whitespace(p[i - 2]));
                            assert(t[i + 1] == p[i - 1]);
                            assert(t[i - 1] == p[i - 3]);
                        }
                    }
                }
            }
        } else {
            assert(r2 == r);
            lemma_pretty_from_shape(r);
            let p = pretty_from(r);
            let t = seq![c] + p;
            assert forall|i: int| 0 <= i < t.len() && #[trigger] spec_is_whitespace(t[i]) implies {
                &&& t[i] == ' '
                &&& 0 < i < t.len() - 1
                &&& !spec_is_whitespace(t[i - 1]) && !is_symbol(t[i - 1])
                &&& !spec_is_whitespace(t[i + 1]) && !is_symbol(t[i + 1])
            } by {
                assert(t[i] == p[i - 1]);
                assert(spec_is_whitespace(p[i - 1]));
                assert(t[i + 1] == p[i]);
                assert(t[i - 1] == p[i - 2]);
            }
        }
    }
}

/// What `pretty` gives is in pretty form.
pub proof fn law_pretty_shape(s: Seq<char>)
    ensures
        is_pretty(pretty(s)),
{
    lemma_drop_ws(s);
    lemma_pretty_from_shape(drop_ws(s));
}

proof fn lemma_pretty_from_fixes(t: Seq<char>)
    requires
        is_pretty(t),
    ensures
        pretty_from(t) == t,
    decreases t.len(),
{
    if t.len() > 0 {
        let c = t[0];
        let r = t.drop_first();
        lemma_drop_ws(r);
        if r.len() > 0 && spec_is_whitespace(r[0]) {
            assert(spec_is_whitespace(t[1]));
            let r2 = r.drop_first();
            assert(r2[0] == t[2]);
            assert(drop_ws(r2) == r2);
            assert(drop_ws(r) == r2);
            assert(is_pretty(r2)) by {
                assert forall|i: int| 0 <= i < r2.len() && #[trigger] spec_is_whitespace(r2[i]) implies {
                    &&& r2[i] == ' '
                    &&& 0 < i < r2.len() - 1
                    &&& !spec_is_whitespace(r2[i - 1]) && !is_symbol(r2[i - 1])
                    &&& !spec_is_whitespace(r2[i + 1]) && !is_symbol(r2[i + 1])
                } by {
                    assert(r2[i] == t[i + 2]);
                    assert(spec_is_whitespace(t[i + 2]));
                    assert(r2[i + 1] == t[i + 3]);
                    assert(r2[i - 1] == t[i + 1]);
                }
            }
            lemma_pretty_from_fixes(r2);
            assert(seq![c, ' '] + r2 =~= t);
        } else {
            if r.len() > 0 {
                assert(drop_ws(r) == r);
            }
            assert(is_pretty(r)) by {
                assert forall|i: int| 0 <= i < r.len() && #[trigger] spec_is_whitespace(r[i]) implies {
                    &&& r[i] == ' '
                    &&& 0 < i < r.len() - 1
                    &&& !spec_is_whitespace(r[i - 1]) && !is_symbol(r[i - 1])
                    &&& !spec_is_whitespace(r[i + 1]) && !is_symbol(r[i + 1])
                } by {
                    assert(r[i] == t[i + 1]);
                    assert(spec_is_whitespace(t[i + 1]));
                    assert(r[i + 1] == t[i + 2]);
                    assert(r[i - 1] == t[i]);
                }
            }
            lemma_pretty_from_fixes(r);
            assert(seq![c] + r =~= t);
        }
    }
}

/// Making a text pretty twice gives what making it pretty once gives: comparing pretty texts
/// again changes nothing.
pub proof fn law_pretty_idempotent(s: Seq<char>)
    ensures
        pretty(pretty(s)) == pretty(s),
{
    law_pretty_shape(s);
    let t = pretty(s);
    if t.len() > 0 {
        assert(!spec_is_whitespace(t[0]));
        assert(drop_ws(t) == t);
    }
    lemma_pretty_from_fixes(t);
}

/// The characters of `s` that are not whitespace, in order.
pub open spec fn non_ws(s: Seq<char>) -> Seq<char>
    decreases s.len(),
{
    if s.len() == 0 {
        Seq::empty()
    } else if spec_is_whitespace(s[0]) {
        non_ws(s.drop_first())
    } else {
        seq![s[0]] + non_ws(s.drop_first())
    }
}

pub proof fn lemma_non_ws_drop(s: Seq<char>)
    ensures
        non_ws(drop_ws(s)) == non_ws(s),
    decreases s.len(),
{
    if s.len() > 0 && spec_is_whitespace(s[0]) {
        lemma_non_ws_drop(s.drop_first());
    }
}

proof fn lemma_pretty_from_keeps(s: Seq<char>)
    requires
        s.len() == 0 || !spec_is_whitespace(s[0]),
    ensures
        non_ws(pretty_from(s)) == non_ws(s),
    decreases s.len(),
{
    if s.len() > 0 {
        let c = s[0];
        let r = s.drop_first();
        lemma_drop_ws(r);
        lemma_non_ws_drop(r);
        let r2 = drop_ws(r);
        assert(non_ws(s) == seq![c] + non_ws(r));
        if r2.len() < r.len() {
            if r2.len() == 0 {
                assert(non_ws(r2) == Seq::<char>::empty());
                assert(seq![c].drop_first() =~= Seq::<char>::empty());
                assert(non_ws(seq![c]) == seq![c] + non_ws(Seq::<char>::empty()));
                assert(non_ws(seq![c]) =~= non_ws(s));
            } else {
                lemma_pretty_from_keeps(r2);
                let p = pretty_from(r2);
                if is_symbol(c) || is_symbol(r2[0]) {
                    let t = seq![c] + p;
                    assert(t.drop_first() =~= p);
                    assert(non_ws(t) == seq![c] + non_ws(p));
                } else {
                    let t = seq![c, ' '] + p;
                    let u = t.drop_first();
                    assert(u.drop_first() =~= p);
                    assert(u[0] == ' ');
                    assert(spec_is_whitespace(' '));
                    assert(non_ws(u) == non_ws(p));
                    assert(non_ws(t) == seq![c] + non_ws(u));
                }
            }
        } else {
            assert(r2 == r);
            lemma_pretty_from_keeps(r);
            let t = seq![c] + pretty_from(r);
            assert(t.drop_first() =~= pretty_from(r));
            assert(non_ws(t) == seq![c] + non_ws(pretty_from(r)));
        }
    }
}

/// Making a text pretty keeps every character that is not whitespace, in order: only
/// whitespace is dropped or changed.
pub proof fn law_pretty_keeps_text(s: Seq<char>)
    ensures
        non_ws(pretty(s)) == non_ws(s),
{
    lemma_drop_ws(s);
    lemma_non_ws_drop(s);
    lemma_pretty_from_keeps(drop_ws(s));
}


/// Whether every character of `w` is whitespace.
pub open spec fn all_ws(w: Seq<char>) -> bool {
    forall|i: int| 0 <= i < w.len() ==> spec_is_whitespace(#[trigger] w[i])
}

proof fn lemma_drop_ws_concat(a: Seq<char>, b: Seq<char>)
    ensures
        drop_ws(a).len() > 0 ==> drop_ws(a + b) == drop_ws(a) + b,
        drop_ws(a).len() == 0 ==> drop_ws(a + b) == drop_ws(b),
    decreases a.len(),
{
    if a.len() == 0 {
        assert(a + b =~= b);
    } else if spec_is_whitespace(a[0]) {
        assert((a + b)[0] == a[0]);
        assert((a + b).drop_first() =~= a.drop_first() + b);
        lemma_drop_ws_concat(a.drop_first(), b);
    } else {
        assert((a + b)[0] == a[0]);
    }
}

proof fn lemma_drop_all_ws(w: Seq<char>)
    requires
        all_ws(w),
    ensures
        drop_ws(w).len() == 0,
    decreases w.len(),
{
    if w.len() > 0 {
        assert(spec_is_whitespace(w[0]));
        assert forall|i: int| 0 <= i < w.drop_first().len() implies spec_is_whitespace(
            #[trigger] w.drop_first()[i],
        ) by {
            assert(w.drop_first()[i] == w[i + 1]);
        }
        lemma_drop_all_ws(w.drop_first());
    }
}

pub proof fn lemma_gap_free(w: Seq<char>, y: Seq<char>)
    requires
        all_ws(w),
        y.len() == 0 || !spec_is_whitespace(y[0]),
    ensures
        drop_ws(w + y) == y,
{
    lemma_drop_all_ws(w);
    lemma_drop_ws_concat(w, y);
}

proof fn lemma_runs_alike_from(x: Seq<char>, w1: Seq<char>, w2: Seq<char>, y: Seq<char>)
    requires
        x.len() > 0,
        !spec_is_whitespace(x[0]),
        !spec_is_whitespace(x.last()),
        w1.len() > 0 && all_ws(w1),
        w2.len() > 0 && all_ws(w2),
        y.len() == 0 || !spec_is_whitespace(y[0]),
    ensures
        pretty_from(x + w1 + y) == pretty_from(x + w2 + y),
    decreases x.len(),
{
    let c = x[0];
    let x1 = x.drop_first();
    let z1 = x + w1 + y;
    let z2 = x + w2 + y;
    assert(z1[0] == c && z2[0] == c);
    assert(z1.drop_first() =~= x1 + (w1 + y));
    assert(z2.drop_first() =~= x1 + (w2 + y));
    lemma_drop_ws(z1.drop_first());
    lemma_drop_ws(z2.drop_first());
    lemma_gap_free(w1, y);
    lemma_gap_free(w2, y);
    if x1.len() == 0 {
        assert(x1 + (w1 + y) =~= w1 + y);
        assert(x1 + (w2 + y) =~= w2 + y);
        assert(spec_is_whitespace((w1 + y)[0]));
        assert(spec_is_whitespace((w2 + y)[0]));
    } else {
        lemma_drop_ws(x1);
        let x2 = drop_ws(x1);
        if !spec_is_whitespace(x1[0]) {
            assert(drop_ws(x1 + (w1 + y)) == x1 + (w1 + y));
            assert(drop_ws(x1 + (w2 + y)) == x1 + (w2 + y));
            assert(x1.last() == x.last());
            lemma_runs_alike_from(x1, w1, w2, y);
            assert(x1 + (w1 + y) =~= x1 + w1 + y);
            assert(x1 + (w2 + y) =~= x1 + w2 + y);
        } else {
            lemma_drop_ws_concat(x1, w1 + y);
            lemma_drop_ws_concat(x1, w2 + y);
            if x2.len() == 0 {
                lemma_drop_ws_concat(x1, Seq::<char>::empty());
                assert(x1 + Seq::<char>::empty() =~= x1);
                lemma_ws_suffix(x1);
                assert(x1.last() == x.last());
            }
            assert(x2.len() > 0);
            lemma_drop_ws_suffix(x1);
            assert(x2.last() == x1.last());
            assert(x1.last() == x.last());
            lemma_runs_alike_from(x2, w1, w2, y);
            assert(x2 + (w1 + y) =~= x2 + w1 + y);
            assert(x2 + (w2 + y) =~= x2 + w2 + y);
        }
    }
}

proof fn lemma_ws_suffix(a: Seq<char>)
    requires
        a.len() > 0,
        drop_ws(a).len() == 0,
    ensures
        spec_is_whitespace(a.last()),
    decreases a.len(),
{
    if a.len() > 1 {
        assert(spec_is_whitespace(a[0]));
        assert(a.drop_first().last() == a.last());
        lemma_ws_suffix(a.drop_first());
    }
}

proof fn lemma_drop_ws_suffix(a: Seq<char>)
    ensures
        drop_ws(a).len() > 0 ==> drop_ws(a).last() == a.last(),
    decreases a.len(),
{
    if a.len() > 0 && spec_is_whitespace(a[0]) {
        lemma_drop_ws_suffix(a.drop_first());
        if drop_ws(a).len() > 0 {
            assert(a.drop_first().last() == a.last());
        }
    }
}

/// Which whitespace stands between two texts does not matter, only that some does: for a
/// text `x` that does not end in whitespace, a text `y` that does not begin with it, and any
/// two non-empty runs of whitespace `w1`, `w2`, `x w1 y` and `x w2 y` have the same pretty
/// form.
pub proof fn law_pretty_runs_alike(x: Seq<char>, w1: Seq<char>, w2: Seq<char>, y: Seq<char>)
    requires
        x.len() == 0 || !spec_is_whitespace(x.last()),
        w1.len() > 0 && all_ws(w1),
        w2.len() > 0 && all_ws(w2),
        y.len() == 0 || !spec_is_whitespace(y[0]),
    ensures
        pretty(x + w1 + y) == pretty(x + w2 + y),
{
    lemma_gap_free(w1, y);
    lemma_gap_free(w2, y);
    lemma_drop_ws(x);
    lemma_drop_ws_concat(x, w1 + y);
    lemma_drop_ws_concat(x, w2 + y);
    assert(x + w1 + y =~= x + (w1 + y));
    assert(x + w2 + y =~= x + (w2 + y));
    let d = drop_ws(x);
    if d.len() > 0 {
        lemma_drop_ws_suffix(x);
        lemma_runs_alike_from(d, w1, w2, y);
        assert(d + (w1 + y) =~= d + w1 + y);
        assert(d + (w2 + y) =~= d + w2 + y);
    }
}

/// Two words that whitespace parts are shown with one space between them: for characters
/// `a`, `b` that are neither whitespace nor symbols and any non-empty run of whitespace `w`,
/// the pretty form of `a w b` is `a b`.
pub proof fn law_pretty_word_gap(a: char, w: Seq<char>, b: char)
    requires
        !spec_is_whitespace(a) && !is_symbol(a),
        !spec_is_whitespace(b) && !is_symbol(b),
        w.len() > 0 && all_ws(w),
    ensures
        pretty(seq![a] + w + seq![b]) == seq![a, ' ', b],
{
    assert(spec_is_whitespace(' '));
    assert(all_ws(seq![' ']));
    law_pretty_runs_alike(seq![a], w, seq![' '], seq![b]);
    let t = seq![a] + seq![' '] + seq![b];
    assert(t =~= seq![a, ' ', b]);
    assert(drop_ws(t) == t);
    let r = t.drop_first();
    assert(r =~= seq![' ', b]);
    assert(r.drop_first() =~= seq![b]);
    assert(drop_ws(r.drop_first()) == seq![b]);
    assert(drop_ws(r) == seq![b]);
    let e = Seq::<char>::empty();
    assert(seq![b].drop_first() =~= e);
    assert(drop_ws(e) == e);
    assert(pretty_from(e) == e);
    assert(seq![b] + e =~= seq![b]);
    assert(pretty_from(seq![b]) == seq![b]);
    assert(seq![a, ' '] + seq![b] =~= seq![a, ' ', b]);
}

} // verus!
