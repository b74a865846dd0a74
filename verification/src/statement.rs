use vstd::prelude::*;
use crate::compare::join;
use crate::text::{decimal, push_decimal, push_str, string_push};

verus! {

/// The texts of a list of string slices.
pub open spec fn texts(v: Seq<&str>) -> Seq<Seq<char>> {
    v.map_values(|s: &str| s@)
}

/// `$first`, `$first+1`, .., `n` numbered placeholders in all.
pub open spec fn bind_list(first: nat, n: nat) -> Seq<Seq<char>> {
    Seq::new(n, |k: int| seq!['$'] + decimal((first + k) as nat))
}

/// `rows` tuples of `n` placeholders each, numbered on from `$1` across the tuples.
pub open spec fn value_rows(rows: nat, n: nat) -> Seq<Seq<char>> {
    Seq::new(rows, |r: int| seq!['('] + join(bind_list((1 + r * n) as nat, n), ", "@) + seq![')'])
}

/// `INSERT INTO from (a, b) VALUES ($1, $2), ($3, $4) RETURNING x, y`: `column` rows of
/// placeholders for the columns `input`, and a `RETURNING` clause where `output` is given.
pub open spec fn insert_sql(
    from: Seq<char>,
    input: Seq<Seq<char>>,
    column: nat,
    output: Option<Seq<Seq<char>>>,
) -> Seq<char> {
    "INSERT INTO "@ + from + " ("@ + join(input, ", "@) + ") VALUES "@ + join(
        value_rows(column, input.len()),
        ", "@,
    ) + match output {
        Some(o) => " RETURNING "@ + join(o, ", "@),
        None => Seq::empty(),
    }
}

proof fn lemma_join_step(items: Seq<Seq<char>>, i: int, sep: Seq<char>)
    requires
        0 <= i < items.len(),
    ensures
        join(items.subrange(0, i + 1), sep) == if i == 0 {
            items[0]
        } else {
            join(items.subrange(0, i), sep) + sep + items[i]
        },
{
    let sub = items.subrange(0, i + 1);
    assert(sub.subrange(0, i) =~= items.subrange(0, i));
    assert(sub[i] == items[i]);
}

/// Appends the slices of `v` joined by `, `.
fn push_comma_joined(s: &mut String, v: &Vec<&str>)
    ensures
        final(s)@ == old(s)@ + join(texts(v@), ", "@),
{
    let ghost items = texts(v@);
    let mut i: usize = 0;
    assert(items.subrange(0, 0) =~= Seq::<Seq<char>>::empty());
    while i < v.len()
        invariant
            i <= v.len(),
            items == texts(v@),
            items.len() == v.len(),
            s@ == old(s)@ + join(items.subrange(0, i as int), ", "@),
        decreases v.len() - i,
    {
        if i > 0 {
            push_str(s, ", ");
        }
        push_str(s, v[i]);
        proof {
            lemma_join_step(items, i as int, ", "@);
            assert(s@ =~= old(s)@ + join(items.subrange(0, i + 1), ", "@));
        }
        i = i + 1;
    }
    assert(items.subrange(0, v.len() as int) =~= items);
}

/// Appends `(` and `n` placeholders numbered from `first`, then `)`.
fn push_row(s: &mut String, first: u64, n: usize)
    requires
        first + n <= u64::MAX,
    ensures
        final(s)@ == old(s)@ + seq!['('] + join(bind_list(first as nat, n as nat), ", "@)
            + seq![')'],
{
    let ghost items = bind_list(first as nat, n as nat);
    string_push(s, '(');
    let mut k: usize = 0;
    assert(items.subrange(0, 0) =~= Seq::<Seq<char>>::empty());
    while k < n
        invariant
            k <= n,
            first + n <= u64::MAX,
            items == bind_list(first as nat, n as nat),
            s@ == old(s)@ + seq!['('] + join(items.subrange(0, k as int), ", "@),
        decreases n - k,
    {
        if k > 0 {
            push_str(s, ", ");
        }
        string_push(s, '$');
        push_decimal(s, first + k as u64);
        proof {
            lemma_join_step(items, k as int, ", "@);
            assert(items[k as int] == seq!['$'] + decimal((first + k) as nat));
            assert(s@ =~= old(s)@ + seq!['('] + join(items.subrange(0, k + 1), ", "@));
        }
        k = k + 1;
    }
    string_push(s, ')');
    assert(items.subrange(0, n as int) =~= items);
}

/// The INSERT statement of `insert_sql`. Placeholders are numbered as 32-bit signed
/// integers, so their count `column * input.len()` stays below `i32::MAX`.
pub fn insert_statement(from: &str, input: &Vec<&str>, column: usize, output: &Option<Vec<&str>>) -> (r:
    String)
    requires
        column * input.len() < 0x7fff_ffff,
    ensures
        r@ == insert_sql(
            from@,
            texts(input@),
            column as nat,
            match output {
                Some(o) => Some(texts(o@)),
                None => None,
            },
        ),
{
    let n = input.len();
    let mut s = String::new();
    push_str(&mut s, "INSERT INTO ");
    push_str(&mut s, from);
    push_str(&mut s, " (");
    push_comma_joined(&mut s, input);
    push_str(&mut s, ") VALUES ");
    let ghost head = s@;
    let ghost rows = value_rows(column as nat, n as nat);
    let mut binds: u64 = 1;
    let mut r: usize = 0;
    assert(rows.subrange(0, 0) =~= Seq::<Seq<char>>::empty());
    while r < column
        invariant
            r <= column,
            n == input.len(),
            column * n < 0x7fff_ffff,
            rows == value_rows(column as nat, n as nat),
            binds == 1 + r * n,
            s@ == head + join(rows.subrange(0, r as int), ", "@),
        decreases column - r,
    {
        if r > 0 {
            push_str(&mut s, ", ");
        }
        proof {
            assert((r + 1) * n == r * n + n) by (nonlinear_arith);
            assert((r + 1) * n <= column * n) by (nonlinear_arith)
                requires
                    r + 1 <= column,
            ;
        }
        push_row(&mut s, binds, n);
        binds = binds + n as u64;
        proof {
            lemma_join_step(rows, r as int, ", "@);
            assert(rows[r as int] == seq!['('] + join(bind_list((1 + r * n) as nat, n as nat), ", "@)
                + seq![')']);
            assert(s@ =~= head + join(rows.subrange(0, r + 1), ", "@));
        }
        r = r + 1;
    }
    assert(rows.subrange(0, column as int) =~= rows);
    match output {
        Some(o) => {
            push_str(&mut s, " RETURNING ");
            push_comma_joined(&mut s, o);
        },
        None => {},
    }
    s
}

/// An INSERT statement over columns `input` of table `from`, with `column` rows of values
/// and the columns `output` returned.
pub struct InsertSt4<'a> {
    pub input: Vec<&'a str>,
    pub output: Option<Vec<&'a str>>,
    pub column: usize,
    pub from: &'a str,
}

impl<'q> InsertSt4<'q> {
    /// The statement's text (see `insert_sql`).
    pub fn build(&self) -> (r: String)
        requires
            self.column * self.input.len() < 0x7fff_ffff,
        ensures
            r@ == insert_sql(
                self.from@,
                texts(self.input@),
                self.column as nat,
                match self.output {
                    Some(o) => Some(texts(o@)),
                    None => None,
                },
            ),
    {
        insert_statement(self.from, &self.input, self.column, &self.output)
    }
}

/// An INSERT statement over static names (see `InsertSt4`).
pub struct InsertSt3 {
    pub input: Vec<&'static str>,
    pub output: Option<Vec<&'static str>>,
    pub column: usize,
    pub from: &'static str,
}

impl InsertSt3 {
    /// The statement's text (see `insert_sql`).
    pub fn build(&self) -> (r: String)
        requires
            self.column * self.input.len() < 0x7fff_ffff,
        ensures
            r@ == insert_sql(
                self.from@,
                texts(self.input@),
                self.column as nat,
                match self.output {
                    Some(o) => Some(texts(o@)),
                    None => None,
                },
            ),
    {
        insert_statement(self.from, &self.input, self.column, &self.output)
    }
}

} // verus!
