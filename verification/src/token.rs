use vstd::prelude::*;
use crate::auth::{expired, TokenError};
use hmac::{Hmac, Mac};
use jwt::{SignWithKey, ToBase64, VerifyWithKey};
use serde_json::Value;
use sha2::Sha256;

verus! {

/// The value of a further claim, by its JSON type: a string, a number (its JSON text), or
/// any other value (its JSON text).
#[derive(Debug, Clone, PartialEq)]
pub enum ClaimValue {
    Text(String),
    Number(String),
    Other(String),
}

/// The value of a further claim, as a value.
pub enum ClaimValueView {
    Text(Seq<char>),
    Number(Seq<char>),
    Other(Seq<char>),
}

impl View for ClaimValue {
    type V = ClaimValueView;

    open spec fn view(&self) -> ClaimValueView {
        match self {
            ClaimValue::Text(s) => ClaimValueView::Text(s@),
            ClaimValue::Number(s) => ClaimValueView::Number(s@),
            ClaimValue::Other(s) => ClaimValueView::Other(s@),
        }
    }
}

/// Claims by name, as values.
pub open spec fn claims_view(v: Seq<(String, ClaimValue)>) -> Seq<(Seq<char>, ClaimValueView)> {
    v.map_values(|p: (String, ClaimValue)| (p.0@, p.1@))
}

/// The token that `jwt` signs, with HMAC-SHA256 keyed by the salt, for a claims object
/// holding `id`, `iat`, `exp` and the further claims; `None` where a further claim's JSON
/// text does not read.
pub uninterp spec fn signed_token(
    salt: Seq<char>,
    id: Seq<char>,
    iat: int,
    exp: int,
    todos: Seq<(Seq<char>, ClaimValueView)>,
) -> Option<Seq<char>>;

/// The claims object of a token whose HMAC-SHA256 signature, keyed by the salt, `jwt`
/// verifies, entry by entry in `serde_json`'s order; `None` where the token does not verify or
/// does not hold a JSON object.
pub uninterp spec fn token_claims(salt: Seq<char>, token: Seq<char>) -> Option<
    Seq<(Seq<char>, ClaimValueView)>,
>;

/// Whether `chrono` represents the instant `secs` seconds after the epoch: from the first
/// day of its first year to the last second of its last year.
pub open spec fn utc_representable(secs: int) -> bool {
    -8334601228800 <= secs <= 8210266876799
}

/// The 32-byte PBKDF2-HMAC-SHA256 key that `ring` derives from the secret and the salt.
pub uninterp spec fn pbkdf2_sha256(iterations: int, salt: Seq<char>, secret: Seq<char>) -> Seq<u8>;

/// What `jwt`'s `ToBase64` gives for bytes: the JSON array of the bytes, base64url-encoded
/// without padding.
pub uninterp spec fn json_base64(bytes: Seq<u8>) -> Seq<char>;

/// A verified claims object that holds exactly `id` (a string), `iat` and `exp` (numbers
/// with these numerals).
pub open spec fn issued_claims(c: Option<Seq<(Seq<char>, ClaimValueView)>>, id: Seq<char>, iat: int, exp: int) -> bool {
    &&& c is Some
    &&& find_claim(c->0, "id"@) == Some(ClaimValueView::Text(id))
    &&& find_claim(c->0, "iat"@) == Some(ClaimValueView::Number(crate::text::signed_decimal(iat)))
    &&& find_claim(c->0, "exp"@) == Some(ClaimValueView::Number(crate::text::signed_decimal(exp)))
    &&& forall|i: int| 0 <= i < c->0.len() ==> reserved(#[trigger] c->0[i].0)
}

/// `Hmac::<Sha256>::new_from_slice` on the salt, then `SignWithKey::sign_with_key` on the
/// `serde_json` object of the claims: `id`, `iat`, `exp`, then each further claim, a string
/// as a JSON string and any other value read from its JSON text. HMAC takes a key of any
/// length and signing a JSON object does not fail, so with string claims only the token is
/// there. Verifying with the same salt checks the same HMAC, and reads back an object with
/// the same entries; an integer's JSON text is its decimal numeral.
#[verifier::external_body]
fn sign_claims(salt: &str, id: &str, iat: i64, exp: i64, todos: &Vec<(String, ClaimValue)>) -> (r:
    Option<String>)
    ensures
        signed_token(salt@, id@, iat as int, exp as int, claims_view(todos@)) == match r {
            Some(t) => Some(t@),
            None => None,
        },
        (forall|i: int| 0 <= i < todos.len() ==> todos@[i].1 is Text) ==> r is Some,
        r matches Some(t) ==> todos.len() == 0 ==> issued_claims(
            token_claims(salt@, t@),
            id@,
            iat as int,
            exp as int,
        ),
{
    let key: Hmac<Sha256> = Hmac::new_from_slice(salt.as_bytes()).ok()?;
    let mut m = serde_json::Map::new();
    m.insert("id".to_string(), Value::from(id));
    m.insert("iat".to_string(), Value::from(iat));
    m.insert("exp".to_string(), Value::from(exp));
    for (k, v) in todos {
        let v = match v {
            ClaimValue::Text(s) => Value::from(s.as_str()),
            ClaimValue::Number(t) | ClaimValue::Other(t) => serde_json::from_str(t).ok()?,
        };
        m.insert(k.clone(), v);
    }
    Value::Object(m).sign_with_key(&key).ok()
}

/// `Hmac::<Sha256>::new_from_slice` on the salt, then `VerifyWithKey::verify_with_key` into a
/// `serde_json` object: its entries, each value told apart by its JSON type.
#[verifier::external_body]
fn verify_claims(salt: &str, token: &str) -> (r: Option<Vec<(String, ClaimValue)>>)
    ensures
        token_claims(salt@, token@) == match r {
            Some(v) => Some(claims_view(v@)),
            None => None,
        },
{
    let key: Hmac<Sha256> = Hmac::new_from_slice(salt.as_bytes()).ok()?;
    let m: serde_json::Map<String, Value> = token.verify_with_key(&key).ok()?;
    Some(m.into_iter().map(|(k, v)| (k, match v {
        Value::String(s) => ClaimValue::Text(s),
        Value::Number(n) => ClaimValue::Number(n.to_string()),
        v => ClaimValue::Other(v.to_string()),
    })).collect())
}

/// `chrono::DateTime::from_timestamp(secs, 0)`: whether the instant is in `chrono`'s range,
/// the days of its dates `NaiveDate::MIN` to `NaiveDate::MAX`.
#[verifier::external_body]
fn representable(secs: i64) -> (r: bool)
    ensures
        r == utc_representable(secs as int),
{
    chrono::DateTime::from_timestamp(secs, 0).is_some()
}

/// `ring::pbkdf2::derive` with PBKDF2-HMAC-SHA256 into 32 bytes. `ring` refuses inputs too
/// large for SHA-256, far beyond the lengths that `requires` admits.
#[verifier::external_body]
fn pbkdf2_digest(iterations: u32, salt: &str, secret: &str) -> (r: Vec<u8>)
    requires
        iterations > 0,
        salt@.len() < 0x100_0000_0000_0000,
        secret@.len() < 0x100_0000_0000_0000,
    ensures
        r@ == pbkdf2_sha256(iterations as int, salt@, secret@),
        r.len() == 32,
{
    let mut digest = vec![0u8; ring::digest::SHA256_OUTPUT_LEN];
    let n = std::num::NonZeroU32::new(iterations).unwrap();
    ring::pbkdf2::derive(ring::pbkdf2::PBKDF2_HMAC_SHA256, n, salt.as_bytes(), secret.as_bytes(), &mut digest);
    digest
}

/// `jwt::ToBase64::to_base64` on bytes; serialising bytes to JSON does not fail.
#[verifier::external_body]
fn bytes_to_base64(bytes: &Vec<u8>) -> (r: String)
    ensures
        r@ == json_base64(bytes@),
{
    bytes.to_base64().unwrap().to_string()
}

} // verus!

verus! {

/// Whether `c` is an ASCII digit.
pub open spec fn is_digit(c: char) -> bool {
    '0' <= c && c <= '9'
}

/// The number that a string of digits spells in decimal.
pub open spec fn digits_value(s: Seq<char>) -> int
    decreases s.len(),
{
    if s.len() == 0 {
        0
    } else {
        digits_value(s.drop_last()) * 10 + (s.last() as int - '0' as int)
    }
}

/// The digits of a JSON number's text: all after a leading `-`, if any.
pub open spec fn json_digits(t: Seq<char>) -> Seq<char> {
    if t.len() > 0 && t[0] == '-' {
        t.drop_first()
    } else {
        t
    }
}

/// Whether every character is a digit.
pub open spec fn all_digits(d: Seq<char>) -> bool {
    forall|i: int| 0 <= i < d.len() ==> is_digit(#[trigger] d[i])
}

/// The 64-bit integer that a JSON number's text spells: an optional `-` and digits only, in
/// `i64`'s range. Any other number (a fraction, an exponent, one out of range) has none.
pub open spec fn json_i64(t: Seq<char>) -> Option<int> {
    let d = json_digits(t);
    if d.len() == 0 || !all_digits(d) {
        None
    } else {
        let v = if t[0] == '-' {
            -digits_value(d)
        } else {
            digits_value(d)
        };
        if i64::MIN <= v <= i64::MAX {
            Some(v)
        } else {
            None
        }
    }
}

/// Reads the 64-bit integer that a JSON number's text spells (see `json_i64`).
pub fn parse_json_i64(t: &str) -> (r: Option<i64>)
    ensures
        match r {
            Some(v) => json_i64(t@) == Some(v as int),
            None => json_i64(t@) is None,
        },
{
    let v = crate::text::chars_of(t);
    let neg = v.len() > 0 && v[0] == '-';
    let start: usize = if neg {
        1
    } else {
        0
    };
    let ghost d = json_digits(t@);
    assert(d =~= v@.subrange(start as int, v@.len() as int));
    assert(neg == (t@.len() > 0 && t@[0] == '-'));
    if start >= v.len() {
        assert(d.len() == 0);
        assert(json_i64(t@) is None);
        return None;
    }
    let mut acc: u128 = 0;
    let mut exact = true;
    let mut i: usize = start;
    while i < v.len()
        invariant
            start <= i <= v.len(),
            v@ == t@,
            d == v@.subrange(start as int, v@.len() as int),
            d == json_digits(t@),
            neg == (t@.len() > 0 && t@[0] == '-'),
            start == (if neg {
                1usize
            } else {
                0usize
            }),
            d.len() > 0,
            forall|j: int| start <= j < i ==> is_digit(#[trigger] v@[j]),
            exact ==> acc == digits_value(v@.subrange(start as int, i as int)),
            exact ==> acc <= 0x1_0000_0000_0000_0000,
            !exact ==> digits_value(v@.subrange(start as int, i as int)) > 0x1_0000_0000_0000_0000,
        decreases v.len() - i,
    {
        let c = v[i];
        if !('0' <= c && c <= '9') {
            assert(!is_digit(d[i - start]));
            return None;
        }
        let dv: u128 = (c as u32 - '0' as u32) as u128;
        let ghost pre = v@.subrange(start as int, i as int);
        let ghost post = v@.subrange(start as int, i + 1);
        assert(post.drop_last() =~= pre);
        assert(digits_value(post) == digits_value(pre) * 10 + dv);
        if exact {
            let next = acc * 10 + dv;
            if next > 0x1_0000_0000_0000_0000 {
                exact = false;
            } else {
                acc = next;
            }
        } else {
            assert(digits_value(pre) * 10 + dv > 0x1_0000_0000_0000_0000) by (nonlinear_arith)
                requires
                    digits_value(pre) > 0x1_0000_0000_0000_0000,
                    dv >= 0,
            ;
        }
        i = i + 1;
    }
    assert(v@.subrange(start as int, v.len() as int) =~= d);
    if !exact {
        return None;
    }
    let val: i128 = if neg {
        -(acc as i128)
    } else {
        acc as i128
    };
    if val >= i64::MIN as i128 && val <= i64::MAX as i128 {
        Some(val as i64)
    } else {
        None
    }
}

impl ClaimValue {
    /// A copy of the value.
    pub fn copied(&self) -> (r: ClaimValue)
        ensures
            r@ == self@,
    {
        match self {
            ClaimValue::Text(s) => ClaimValue::Text(s.clone()),
            ClaimValue::Number(s) => ClaimValue::Number(s.clone()),
            ClaimValue::Other(s) => ClaimValue::Other(s.clone()),
        }
    }
}

/// The value of the first claim named `k`, if any.
pub open spec fn find_claim(e: Seq<(Seq<char>, ClaimValueView)>, k: Seq<char>) -> Option<
    ClaimValueView,
>
    decreases e.len(),
{
    if e.len() == 0 {
        None
    } else if e[0].0 == k {
        Some(e[0].1)
    } else {
        find_claim(e.drop_first(), k)
    }
}

/// `id`, `iat` and `exp`: the claims that every session token holds.
pub open spec fn reserved(k: Seq<char>) -> bool {
    k == "id"@ || k == "iat"@ || k == "exp"@
}

/// The further claims: all but `id`, `iat` and `exp`, in order.
pub open spec fn further_claims(e: Seq<(Seq<char>, ClaimValueView)>) -> Seq<
    (Seq<char>, ClaimValueView),
>
    decreases e.len(),
{
    if e.len() == 0 {
        Seq::empty()
    } else if reserved(e.last().0) {
        further_claims(e.drop_last())
    } else {
        further_claims(e.drop_last()).push(e.last())
    }
}

/// The claims of a session token.
#[derive(Debug, Clone, PartialEq)]
pub struct IClaims {
    pub id: String,
    pub iat: i64,
    pub exp: i64,
    /// The further claims, by name.
    pub todos: Vec<(String, ClaimValue)>,
}

/// The claims of a session token, as a value.
pub struct ClaimsView {
    pub id: Seq<char>,
    pub iat: int,
    pub exp: int,
    pub todos: Seq<(Seq<char>, ClaimValueView)>,
}

impl View for IClaims {
    type V = ClaimsView;

    open spec fn view(&self) -> ClaimsView {
        ClaimsView {
            id: self.id@,
            iat: self.iat as int,
            exp: self.exp as int,
            todos: claims_view(self.todos@),
        }
    }
}

/// The session claims that a verified claims object holds: `id` a string, `iat` and `exp`
/// 64-bit integers, the rest further claims; `None` where one of the three is missing or of
/// another type.
pub open spec fn session_claims(e: Seq<(Seq<char>, ClaimValueView)>) -> Option<ClaimsView> {
    match (find_claim(e, "id"@), find_claim(e, "iat"@), find_claim(e, "exp"@)) {
        (Some(ClaimValueView::Text(id)), Some(ClaimValueView::Number(a)), Some(
            ClaimValueView::Number(b),
        )) => match (json_i64(a), json_i64(b)) {
            (Some(iat), Some(exp)) => Some(
                ClaimsView { id, iat, exp, todos: further_claims(e) },
            ),
            _ => None,
        },
        _ => None,
    }
}

proof fn lemma_find_claim_skip(e: Seq<(Seq<char>, ClaimValueView)>, k: Seq<char>, i: int)
    requires
        0 <= i <= e.len(),
        forall|j: int| 0 <= j < i ==> e[j].0 != k,
    ensures
        find_claim(e, k) == find_claim(e.subrange(i, e.len() as int), k),
    decreases i,
{
    if i > 0 {
        assert(e.drop_first().subrange(i - 1, e.len() - 1) =~= e.subrange(i, e.len() as int));
        lemma_find_claim_skip(e.drop_first(), k, i - 1);
    } else {
        assert(e.subrange(0, e.len() as int) =~= e);
    }
}

/// The value of the first claim named `k`.
fn find_claim_value(e: &Vec<(String, ClaimValue)>, k: &String) -> (r: Option<ClaimValue>)
    ensures
        find_claim(claims_view(e@), k@) == match r {
            Some(v) => Some(v@),
            None => None,
        },
{
    let ghost ev = claims_view(e@);
    let mut i: usize = 0;
    while i < e.len()
        invariant
            i <= e.len(),
            ev == claims_view(e@),
            ev.len() == e.len(),
            forall|j: int| 0 <= j < i ==> ev[j].0 != k@,
        decreases e.len() - i,
    {
        assert(ev[i as int] == (e@[i as int].0@, e@[i as int].1@));
        if e[i].0 == *k {
            proof {
                lemma_find_claim_skip(ev, k@, i as int);
            }
            return Some(e[i].1.copied());
        }
        i = i + 1;
    }
    proof {
        lemma_find_claim_skip(ev, k@, e.len() as int);
    }
    None
}

/// Reads the session claims out of a verified claims object (see `session_claims`).
pub fn decode_claims(e: &Vec<(String, ClaimValue)>) -> (r: Option<IClaims>)
    ensures
        session_claims(claims_view(e@)) == match r {
            Some(c) => Some(c@),
            None => None,
        },
{
    let id_key = crate::text::string_of("id");
    let iat_key = crate::text::string_of("iat");
    let exp_key = crate::text::string_of("exp");
    let id = find_claim_value(e, &id_key);
    let iat = find_claim_value(e, &iat_key);
    let exp = find_claim_value(e, &exp_key);
    match (id, iat, exp) {
        (Some(ClaimValue::Text(id)), Some(ClaimValue::Number(a)), Some(ClaimValue::Number(b))) => {
            match (parse_json_i64(a.as_str()), parse_json_i64(b.as_str())) {
                (Some(iat), Some(exp)) => {
                    let todos = further_claims_of(e, &id_key, &iat_key, &exp_key);
                    Some(IClaims { id, iat, exp, todos })
                },
                _ => None,
            }
        },
        _ => None,
    }
}

/// All claims but `id`, `iat` and `exp`, in order.
fn further_claims_of(e: &Vec<(String, ClaimValue)>, id_key: &String, iat_key: &String, exp_key: &String) -> (r:
    Vec<(String, ClaimValue)>)
    requires
        id_key@ == "id"@,
        iat_key@ == "iat"@,
        exp_key@ == "exp"@,
    ensures
        claims_view(r@) == further_claims(claims_view(e@)),
{
    let ghost ev = claims_view(e@);
    let mut out: Vec<(String, ClaimValue)> = Vec::new();
    let mut i: usize = 0;
    assert(ev.subrange(0, 0) =~= Seq::<(Seq<char>, ClaimValueView)>::empty());
    while i < e.len()
        invariant
            i <= e.len(),
            ev == claims_view(e@),
            ev.len() == e.len(),
            id_key@ == "id"@,
            iat_key@ == "iat"@,
            exp_key@ == "exp"@,
            claims_view(out@) == further_claims(ev.subrange(0, i as int)),
        decreases e.len() - i,
    {
        let ghost sub = ev.subrange(0, i + 1);
        assert(sub.drop_last() =~= ev.subrange(0, i as int));
        assert(sub.last() == (e@[i as int].0@, e@[i as int].1@));
        let k = &e[i].0;
        if !(*k == *id_key || *k == *iat_key || *k == *exp_key) {
            let ghost before = out@;
            out.push((e[i].0.clone(), e[i].1.copied()));
            assert(claims_view(out@) =~= claims_view(before).push((e@[i as int].0@, e@[i as int].1@)));
        }
        i = i + 1;
    }
    assert(ev.subrange(0, e.len() as int) =~= ev);
    out
}


proof fn lemma_digit_char(d: nat)
    requires
        d < 10,
    ensures
        is_digit(crate::text::digit_char(d)),
        crate::text::digit_char(d) as int - '0' as int == d,
{
}

proof fn lemma_decimal_digits(n: nat)
    ensures
        crate::text::decimal(n).len() > 0,
        all_digits(crate::text::decimal(n)),
        digits_value(crate::text::decimal(n)) == n,
    decreases n,
{
    let s = crate::text::decimal(n);
    if n < 10 {
        lemma_digit_char(n);
        assert(s.drop_last() =~= Seq::<char>::empty());
        assert(s.last() == crate::text::digit_char(n));
        assert(digits_value(s) == digits_value(s.drop_last()) * 10 + (s.last() as int - '0' as int));
    } else {
        lemma_decimal_digits(n / 10);
        lemma_digit_char(n % 10);
        let p = crate::text::decimal(n / 10);
        assert(s == p.push(crate::text::digit_char(n % 10)));
        assert(s.drop_last() =~= p);
        assert(s.last() == crate::text::digit_char(n % 10));
        assert(digits_value(s) == digits_value(p) * 10 + (n % 10));
        assert((n / 10) * 10 + n % 10 == n);
        assert forall|i: int| 0 <= i < s.len() implies is_digit(#[trigger] s[i]) by {
            if i < p.len() {
                assert(s[i] == p[i]);
            }
        }
    }
}

/// An integer's numeral reads back as that integer.
proof fn lemma_json_i64_signed_decimal(n: int)
    requires
        i64::MIN <= n <= i64::MAX,
    ensures
        json_i64(crate::text::signed_decimal(n)) == Some(n),
{
    let t = crate::text::signed_decimal(n);
    if n < 0 {
        lemma_decimal_digits((-n) as nat);
        assert(t[0] == '-');
        assert(t.drop_first() =~= crate::text::decimal((-n) as nat));
    } else {
        lemma_decimal_digits(n as nat);
        let d = crate::text::decimal(n as nat);
        assert(is_digit(d[0]));
        assert(json_digits(t) == d);
    }
}

proof fn lemma_further_claims_empty(e: Seq<(Seq<char>, ClaimValueView)>)
    requires
        forall|i: int| 0 <= i < e.len() ==> reserved(#[trigger] e[i].0),
    ensures
        further_claims(e) == Seq::<(Seq<char>, ClaimValueView)>::empty(),
    decreases e.len(),
{
    if e.len() > 0 {
        let p = e.drop_last();
        assert forall|i: int| 0 <= i < p.len() implies reserved(#[trigger] p[i].0) by {
            assert(p[i] == e[i]);
        }
        assert(reserved(e[e.len() - 1].0));
        lemma_further_claims_empty(p);
    }
}

/// What verifying a token at the instant `now_secs` s + `now_nanos` ns gives: `TokenInvalid`
/// where the signature does not verify or the session claims are not there, `TokenExpired`
/// where the expiry lies before now, else the claims. `None` where the expiry lies outside
/// the instants that `chrono` represents, where no verdict is given (`verify_exp` leaves such
/// tokens out).
pub open spec fn verify_outcome(salt: Seq<char>, token: Seq<char>, now_secs: int, now_nanos: int) -> Option<
    Result<ClaimsView, TokenError>,
> {
    match token_claims(salt, token) {
        None => Some(Err(TokenError::TokenInvalid)),
        Some(e) => match session_claims(e) {
            None => Some(Err(TokenError::TokenInvalid)),
            Some(c) => if !utc_representable(c.exp) {
                None
            } else if c.exp < now_secs || (c.exp == now_secs && now_nanos > 0) {
                Some(Err(TokenError::TokenExpired))
            } else {
                Some(Ok(c))
            },
        },
    }
}

/// A verification's result, as a value.
pub open spec fn outcome_view(r: Result<IClaims, TokenError>) -> Result<ClaimsView, TokenError> {
    match r {
        Ok(c) => Ok(c@),
        Err(e) => Err(e),
    }
}

/// Verifies a bearer token with the salt, and its expiry against now (`now_secs` seconds and
/// `now_nanos` nanoseconds after the epoch); see `verify_outcome`. An expiry that `chrono`
/// cannot represent is left out (see `try_verify_exp`).
pub fn verify_exp(salt: &str, token: &str, now_secs: i64, now_nanos: u32) -> (r: Result<
    IClaims,
    TokenError,
>)
    requires
        verify_outcome(salt@, token@, now_secs as int, now_nanos as int) is Some,
    ensures
        verify_outcome(salt@, token@, now_secs as int, now_nanos as int) == Some(outcome_view(r)),
{
    let entries = match verify_claims(salt, token) {
        Some(e) => e,
        None => {
            return Err(TokenError::TokenInvalid);
        },
    };
    let claims = match decode_claims(&entries) {
        Some(c) => c,
        None => {
            return Err(TokenError::TokenInvalid);
        },
    };
    match crate::auth::verify_exp_at(claims.exp, now_secs, now_nanos) {
        Ok(()) => Ok(claims),
        Err(e) => Err(e),
    }
}

/// `verify_exp` on every input: `None` where the token's expiry lies outside the instants
/// that `chrono` represents.
pub fn try_verify_exp(salt: &str, token: &str, now_secs: i64, now_nanos: u32) -> (r: Option<
    Result<IClaims, TokenError>,
>)
    ensures
        verify_outcome(salt@, token@, now_secs as int, now_nanos as int) == match r {
            Some(x) => Some(outcome_view(x)),
            None => None,
        },
{
    if let Some(entries) = verify_claims(salt, token) {
        if let Some(claims) = decode_claims(&entries) {
            if !representable(claims.exp) {
                return None;
            }
        }
    }
    Some(verify_exp(salt, token, now_secs, now_nanos))
}

/// A token for the user `id`, issued at `iat` and expiring at `exp` (seconds since the
/// epoch), with no further claims.
pub fn sign_for(salt: &str, id: &str, iat: i64, exp: i64) -> (r: String)
    ensures
        signed_token(salt@, id@, iat as int, exp as int, Seq::empty()) == Some(r@),
        forall|now_secs: int, now_nanos: int|
            utc_representable(exp as int) && !(exp < now_secs || (exp == now_secs && now_nanos
                > 0)) ==> #[trigger] verify_outcome(salt@, r@, now_secs, now_nanos) == Some(
                Ok::<ClaimsView, TokenError>(
                    ClaimsView { id: id@, iat: iat as int, exp: exp as int, todos: Seq::empty() },
                ),
            ),
{
    let todos: Vec<(String, ClaimValue)> = Vec::new();
    assert(claims_view(todos@) =~= Seq::empty());
    match sign_claims(salt, id, iat, exp, &todos) {
        Some(t) => {
            proof {
                let e = token_claims(salt@, t@)->0;
                lemma_json_i64_signed_decimal(iat as int);
                lemma_json_i64_signed_decimal(exp as int);
                lemma_further_claims_empty(e);
            }
            t
        },
        None => {
            assert(false);
            String::new()
        },
    }
}

/// A token for the user `id`, issued at `iat` and expiring at `exp`, with the further claims
/// `todos`; `None` where the JSON text of a further claim does not read.
pub fn sign_and(salt: &str, id: &str, iat: i64, exp: i64, todos: &Vec<(String, ClaimValue)>) -> (r:
    Option<String>)
    ensures
        signed_token(salt@, id@, iat as int, exp as int, claims_view(todos@)) == match r {
            Some(t) => Some(t@),
            None => None,
        },
        (forall|i: int| 0 <= i < todos.len() ==> todos@[i].1 is Text) ==> r is Some,
{
    sign_claims(salt, id, iat, exp, todos)
}

/// The stored form of a password: PBKDF2-HMAC-SHA256 with 100 iterations, salted with
/// `salt`, as `jwt`'s base64 of the bytes.
pub open spec fn password_hash(salt: Seq<char>, password: Seq<char>) -> Seq<char> {
    json_base64(pbkdf2_sha256(100, salt, password))
}

/// Hashes a password for storing and comparing (see `password_hash`).
pub fn hash_pass(salt: &str, password: &str) -> (r: String)
    requires
        salt@.len() < 0x100_0000_0000_0000,
        password@.len() < 0x100_0000_0000_0000,
    ensures
        r@ == password_hash(salt@, password@),
{
    let digest = pbkdf2_digest(100, salt, password);
    bytes_to_base64(&digest)
}

/// Whether `s` begins with `p`.
pub open spec fn has_prefix(s: Seq<char>, p: Seq<char>) -> bool {
    p.len() <= s.len() && s.subrange(0, p.len() as int) == p
}

/// `s` without the prefix `p`, where `s` begins with it.
pub fn strip_prefix(s: &str, p: &str) -> (r: Option<String>)
    ensures
        match r {
            Some(rest) => has_prefix(s@, p@) && s@ == p@ + rest@,
            None => !has_prefix(s@, p@),
        },
{
    let sv = crate::text::chars_of(s);
    let pv = crate::text::chars_of(p);
    if pv.len() > sv.len() {
        return None;
    }
    let mut i: usize = 0;
    while i < pv.len()
        invariant
            i <= pv.len() <= sv.len(),
            sv@ == s@,
            pv@ == p@,
            forall|j: int| 0 <= j < i ==> sv@[j] == pv@[j],
        decreases pv.len() - i,
    {
        if sv[i] != pv[i] {
            assert(s@.subrange(0, p@.len() as int)[i as int] != p@[i as int]);
            return None;
        }
        i = i + 1;
    }
    assert(s@.subrange(0, p@.len() as int) =~= p@);
    let mut rest = String::new();
    let mut j: usize = pv.len();
    while j < sv.len()
        invariant
            pv.len() <= j <= sv.len(),
            sv@ == s@,
            rest@ == s@.subrange(pv.len() as int, j as int),
        decreases sv.len() - j,
    {
        crate::text::string_push(&mut rest, sv[j]);
        assert(rest@ =~= s@.subrange(pv.len() as int, j + 1));
        j = j + 1;
    }
    assert(s@ =~= p@ + rest@);
    Some(rest)
}

/// The token of an `Authorization` header: what follows `Bearer `. A missing header, or one
/// of another scheme, is refused with a 400 error.
pub fn bearer_token(header: Option<&str>) -> (r: Result<String, crate::error::ClientError>)
    ensures
        match header {
            None => r matches Err(e) && e.status_code.number() == 400 && e.dev_hint@
                == "authorization not found"@ && e.user_error is None,
            Some(h) => if has_prefix(h@, "Bearer "@) {
                r matches Ok(t) && h@ == "Bearer "@ + t@
            } else {
                r matches Err(e) && e.status_code.number() == 400 && e.dev_hint@
                    == "authorization should start with Bearer"@ && e.user_error is None
            },
        },
{
    match header {
        None => Err(
            crate::error::ClientError::from_hint(crate::text::string_of("authorization not found")),
        ),
        Some(h) => match strip_prefix(h, "Bearer ") {
            Some(t) => Ok(t),
            None => Err(
                crate::error::ClientError::from_hint(
                    crate::text::string_of("authorization should start with Bearer"),
                ),
            ),
        },
    }
}

/// Whether the claims carry the privilege to set the application up: a `privilege` claim
/// that is the string `init_application`.
pub open spec fn init_privileged(c: ClaimsView) -> bool {
    find_claim(c.todos, "privilege"@) == Some(ClaimValueView::Text("init_application"@))
}

/// Lets a request through only with the privilege to set the application up; otherwise a 400
/// error "under privileged".
pub fn can_init(claims: &IClaims) -> (r: Result<(), crate::error::ClientError>)
    ensures
        r is Ok <==> init_privileged(claims@),
        r matches Err(e) ==> e.status_code.number() == 400 && e.dev_hint@ == "under privileged"@
            && e.user_error is None,
{
    let key = crate::text::string_of("privilege");
    let want = crate::text::string_of("init_application");
    match find_claim_value(&claims.todos, &key) {
        Some(ClaimValue::Text(v)) => {
            if v == want {
                return Ok(());
            }
        },
        _ => {},
    }
    Err(crate::error::ClientError::from_hint(crate::text::string_of("under privileged")))
}


/// The checks of a route that needs a signed-in user: the `Authorization` header must hold
/// `Bearer ` and a token that verifies with the salt and has not expired at now (`now_secs`
/// seconds and `now_nanos` nanoseconds after the epoch). Gives the token's claims, or the
/// client error of the first check that fails; `None` where the token's expiry lies outside
/// the instants that `chrono` represents.
pub fn need_super_user(salt: &str, header: Option<&str>, now_secs: i64, now_nanos: u32) -> (r: Option<
    Result<IClaims, crate::error::ClientError>,
>)
    ensures
        match header {
            None => r matches Some(Err(e)) && e.status_code.number() == 400 && e.dev_hint@
                == "authorization not found"@ && e.user_error is None,
            Some(h) => if !has_prefix(h@, "Bearer "@) {
                r matches Some(Err(e)) && e.status_code.number() == 400 && e.dev_hint@
                    == "authorization should start with Bearer"@ && e.user_error is None
            } else {
                match verify_outcome(
                    salt@,
                    h@.subrange("Bearer "@.len() as int, h@.len() as int),
                    now_secs as int,
                    now_nanos as int,
                ) {
                    None => r is None,
                    Some(Ok(c)) => r matches Some(Ok(x)) && x@ == c,
                    Some(Err(t)) => r matches Some(Err(e)) && crate::auth::token_refusal(t, e),
                }
            },
        },
{
    match bearer_token(header) {
        Err(e) => Some(Err(e)),
        Ok(token) => {
            proof {
                let h = header->0;
                assert(token@ =~= h@.subrange("Bearer "@.len() as int, h@.len() as int));
            }
            match try_verify_exp(salt, token.as_str(), now_secs, now_nanos) {
                None => None,
                Some(Ok(c)) => Some(Ok(c)),
                Some(Err(t)) => Some(Err(t.into_client_error())),
            }
        },
    }
}

} // verus!
