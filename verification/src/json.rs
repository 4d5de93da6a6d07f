//! The canonical wire form of the contract types: each type serializes to a
//! fixed JSON text, and parsing that text yields the value back. The
//! round-trip laws are proved here once and for all over the views of the
//! types.

use vstd::prelude::*;

use crate::{APICollection, APICollectionV, ApiV, AuthRequest, AuthRequestV, AuthResponse,
    AuthResponseV, User, UserV, API};

verus! {

// ---------------------------------------------------------------------------
// JSON strings: quote and backslash are escaped, everything else stands for
// itself.
// ---------------------------------------------------------------------------

/// One character of a JSON string body.
pub open spec fn escaped_char(c: char) -> Seq<char> {
    if c == '"' || c == '\\' {
        seq!['\\', c]
    } else {
        seq![c]
    }
}

/// The escaped body of a JSON string.
pub open spec fn escape_seq(s: Seq<char>) -> Seq<char>
    decreases s.len(),
{
    if s.len() == 0 {
        Seq::empty()
    } else {
        escaped_char(s[0]) + escape_seq(s.drop_first())
    }
}

/// A JSON string: the escaped body between quotes.
pub open spec fn jstr(s: Seq<char>) -> Seq<char> {
    seq!['"'] + escape_seq(s) + seq!['"']
}

/// Parses the body of a JSON string at position `i`, up to and including the
/// closing quote; yields the unescaped content and the position after the
/// quote.
pub open spec fn parse_string_body(s: Seq<char>, i: int) -> Option<(Seq<char>, int)>
    decreases s.len() - i,
{
    if i < 0 || i >= s.len() {
        None
    } else if s[i] == '"' {
        Some((Seq::empty(), i + 1))
    } else if s[i] == '\\' {
        if i + 1 < s.len() {
            match parse_string_body(s, i + 2) {
                Some((t, j)) => Some((seq![s[i + 1]] + t, j)),
                None => None,
            }
        } else {
            None
        }
    } else {
        match parse_string_body(s, i + 1) {
            Some((t, j)) => Some((seq![s[i]] + t, j)),
            None => None,
        }
    }
}

/// Escaping is undone by the string-body parser: wherever the text at `i`
/// reads as the escaped form of `s` followed by the closing quote, parsing
/// yields `s` and stops right after that quote.
pub proof fn lemma_parse_escape(t: Seq<char>, i: int, s: Seq<char>)
    requires
        0 <= i,
        i + escape_seq(s).len() + 1 <= t.len(),
        t.subrange(i, i + escape_seq(s).len() + 1) == escape_seq(s) + seq!['"'],
    ensures
        parse_string_body(t, i) == Some((s, i + escape_seq(s).len() + 1)),
    decreases s.len(),
{
    let e = escape_seq(s);
    let w = t.subrange(i, i + e.len() + 1);
    if s.len() == 0 {
        assert(t[i] == w[0]);
        assert(t[i] == '"');
        assert(s =~= Seq::<char>::empty());
    } else {
        let c = s[0];
        let s2 = s.drop_first();
        let e2 = escape_seq(s2);
        assert(e == escaped_char(c) + e2);
        if c == '"' || c == '\\' {
            // escaped form: backslash, then the character itself
            assert(e.len() == 2 + e2.len());
            assert(t[i] == w[0]);
            assert(t[i + 1] == w[1]);
            assert(t[i] == '\\');
            assert(t[i + 1] == c);
            assert(t.subrange(i + 2, i + 2 + e2.len() + 1) =~= w.subrange(2, w.len() as int));
            assert(w.subrange(2, w.len() as int) =~= e2 + seq!['"']);
            lemma_parse_escape(t, i + 2, s2);
            assert(seq![t[i + 1]] + s2 =~= s);
        } else {
            assert(e.len() == 1 + e2.len());
            assert(t[i] == w[0]);
            assert(t[i] == c);
            assert(t.subrange(i + 1, i + 1 + e2.len() + 1) =~= w.subrange(1, w.len() as int));
            assert(w.subrange(1, w.len() as int) =~= e2 + seq!['"']);
            lemma_parse_escape(t, i + 1, s2);
            assert(seq![t[i]] + s2 =~= s);
        }
    }
}

// ---------------------------------------------------------------------------
// JSON numbers: unsigned 64-bit integers in decimal, most significant digit
// first.
// ---------------------------------------------------------------------------

/// Whether `c` is a decimal digit.
pub open spec fn is_digit(c: char) -> bool {
    48 <= c as u32 <= 57
}

/// The value of a decimal digit character.
pub open spec fn digit_val(c: char) -> int {
    c as u32 - 48
}

/// The character of a decimal digit value (0 to 9).
pub open spec fn digit_char(d: int) -> char {
    ((d + 48) as u8) as char
}

/// The decimal digits of `n`, most significant first, no leading zeros.
pub open spec fn digits_of(n: u64) -> Seq<char>
    decreases n,
{
    if n < 10 {
        seq![digit_char(n as int)]
    } else {
        digits_of((n as int / 10) as u64) + seq![digit_char(n as int % 10)]
    }
}

/// Greedily consumes decimal digits from position `i`, accumulating onto
/// `acc`; fails on overflow past `u64::MAX`.
pub open spec fn parse_u64_rec(s: Seq<char>, i: int, acc: u64) -> Option<(u64, int)>
    decreases s.len() - i,
{
    if 0 <= i < s.len() && is_digit(s[i]) {
        if acc <= (u64::MAX - digit_val(s[i])) / 10 {
            parse_u64_rec(s, i + 1, (acc * 10 + digit_val(s[i])) as u64)
        } else {
            None
        }
    } else {
        Some((acc, i))
    }
}

/// Parses a decimal number at position `i`: at least one digit, greedy.
pub open spec fn parse_u64(s: Seq<char>, i: int) -> Option<(u64, int)> {
    if 0 <= i < s.len() && is_digit(s[i]) {
        parse_u64_rec(s, i, 0)
    } else {
        None
    }
}

/// The value of a digit sequence read most-significant-first onto `acc`.
pub open spec fn val_acc(acc: int, ds: Seq<char>) -> int
    decreases ds.len(),
{
    if ds.len() == 0 {
        acc
    } else {
        val_acc(acc * 10 + digit_val(ds[0]), ds.drop_first())
    }
}

/// Whether every character of `ds` is a decimal digit.
pub open spec fn all_digits(ds: Seq<char>) -> bool {
    forall|k: int| 0 <= k < ds.len() ==> is_digit(ds[k])
}

/// Reading digits never shrinks the accumulator.
proof fn lemma_val_acc_ge(acc: int, ds: Seq<char>)
    requires
        0 <= acc,
        all_digits(ds),
    ensures
        val_acc(acc, ds) >= acc,
    decreases ds.len(),
{
    if ds.len() > 0 {
        assert(is_digit(ds[0]));
        assert(acc * 10 >= acc) by (nonlinear_arith)
            requires 0 <= acc;
        lemma_val_acc_ge(acc * 10 + digit_val(ds[0]), ds.drop_first());
    }
}

/// Appending a digit multiplies the value by ten and adds the digit.
proof fn lemma_val_acc_snoc(acc: int, ds: Seq<char>, c: char)
    ensures
        val_acc(acc, ds + seq![c]) == val_acc(acc, ds) * 10 + digit_val(c),
    decreases ds.len(),
{
    if ds.len() == 0 {
        let s1 = ds + seq![c];
        assert(s1[0] == c);
        assert(s1.drop_first() =~= Seq::<char>::empty());
        assert(val_acc(acc * 10 + digit_val(c), s1.drop_first()) == acc * 10 + digit_val(c));
        assert(val_acc(acc, s1) == val_acc(acc * 10 + digit_val(c), s1.drop_first()));
    } else {
        assert((ds + seq![c]).drop_first() =~= ds.drop_first() + seq![c]);
        assert((ds + seq![c])[0] == ds[0]);
        lemma_val_acc_snoc(acc * 10 + digit_val(ds[0]), ds.drop_first(), c);
        assert(val_acc(acc, ds + seq![c]) == val_acc(
            acc * 10 + digit_val(ds[0]),
            ds.drop_first() + seq![c],
        ));
    }
}

/// A digit value and its character are inverse to one another.
proof fn lemma_digit_char(d: int)
    requires
        0 <= d <= 9,
    ensures
        is_digit(digit_char(d)),
        digit_val(digit_char(d)) == d,
{
    assert(((d + 48) as u8) as char as u32 == d + 48);
}

/// The digits of `n` are digits, there is at least one, and reading them
/// onto 0 yields `n` back.
proof fn lemma_digits_of(n: u64)
    ensures
        all_digits(digits_of(n)),
        digits_of(n).len() >= 1,
        val_acc(0, digits_of(n)) == n,
    decreases n,
{
    if n < 10 {
        lemma_digit_char(n as int);
        let ds = digits_of(n);
        assert(ds =~= seq![digit_char(n as int)]);
        assert(ds[0] == digit_char(n as int));
        assert(ds.drop_first() =~= Seq::<char>::empty());
        assert(val_acc(0 * 10 + digit_val(ds[0]), ds.drop_first()) == digit_val(ds[0]));
        assert(val_acc(0, ds) == val_acc(0 * 10 + digit_val(ds[0]), ds.drop_first()));
    } else {
        let q = (n as int / 10) as u64;
        let r = n as int % 10;
        lemma_digits_of(q);
        lemma_digit_char(r);
        lemma_val_acc_snoc(0, digits_of(q), digit_char(r));
        assert(all_digits(digits_of(q) + seq![digit_char(r)])) by {
            assert(forall|k: int|
                0 <= k < digits_of(q).len() ==> (digits_of(q) + seq![digit_char(r)])[k]
                    == digits_of(q)[k]);
        }
        assert(q * 10 + r == n);
    }
}

/// Dividing by ten rounds down: `a <= b / 10` exactly when `a * 10 <= b`.
proof fn lemma_div10(a: int, b: int)
    requires
        0 <= a,
        0 <= b,
    ensures
        a <= b / 10 <==> a * 10 <= b,
{
    vstd::arithmetic::div_mod::lemma_fundamental_div_mod(b, 10);
}

/// The greedy digit parser consumes exactly a digit run that the text holds
/// at `i`, and accumulates its value, provided the run is followed by a
/// non-digit (or the end) and the value fits.
proof fn lemma_parse_digits(t: Seq<char>, i: int, acc: u64, ds: Seq<char>)
    requires
        0 <= i,
        i + ds.len() <= t.len(),
        t.subrange(i, i + ds.len()) == ds,
        all_digits(ds),
        i + ds.len() == t.len() || !is_digit(t[i + ds.len()]),
        val_acc(acc as int, ds) <= u64::MAX,
    ensures
        parse_u64_rec(t, i, acc) == Some((val_acc(acc as int, ds) as u64, i + ds.len())),
    decreases ds.len(),
{
    if ds.len() == 0 {
        assert(val_acc(acc as int, ds) == acc);
    } else {
        let c = ds[0];
        let d = digit_val(c);
        assert(t[i] == t.subrange(i, i + ds.len())[0]);
        assert(t[i] == c);
        assert(is_digit(c));
        let acc2 = acc as int * 10 + d;
        lemma_val_acc_ge(acc2, ds.drop_first());
        assert(val_acc(acc as int, ds) == val_acc(acc2, ds.drop_first()));
        assert(acc2 <= u64::MAX);
        lemma_div10(acc as int, u64::MAX - d);
        assert(acc <= (u64::MAX - d) / 10);
        assert(t.subrange(i + 1, i + 1 + ds.drop_first().len()) =~= ds.drop_first());
        lemma_parse_digits(t, i + 1, acc2 as u64, ds.drop_first());
    }
}

/// Parsing the decimal form of `n` at `i` yields `n` and stops at the first
/// non-digit after it.
proof fn lemma_parse_number(t: Seq<char>, i: int, n: u64)
    requires
        0 <= i,
        i + digits_of(n).len() <= t.len(),
        t.subrange(i, i + digits_of(n).len()) == digits_of(n),
        i + digits_of(n).len() == t.len() || !is_digit(t[i + digits_of(n).len()]),
    ensures
        parse_u64(t, i) == Some((n, i + digits_of(n).len())),
{
    lemma_digits_of(n);
    assert(t[i] == t.subrange(i, i + digits_of(n).len())[0]);
    assert(is_digit(t[i]));
    lemma_parse_digits(t, i, 0, digits_of(n));
}

// ---------------------------------------------------------------------------
// Fixed literal pieces of a document.
// ---------------------------------------------------------------------------

/// Matches the fixed text `lit` at position `i`; yields the position after
/// it.
pub open spec fn parse_lit(s: Seq<char>, i: int, lit: Seq<char>) -> Option<int> {
    if 0 <= i && i + lit.len() <= s.len() && s.subrange(i, i + lit.len()) == lit {
        Some(i + lit.len())
    } else {
        None
    }
}

// ---------------------------------------------------------------------------
// The documents of the contract types, over their views.
// ---------------------------------------------------------------------------

/// The opening of a `User` document, up to the value of `id`.
pub open spec fn user_open() -> Seq<char> {
    seq!['{', '"', 'i', 'd', '"', ':']
}

/// The key of the `name` field, between the two values of a `User` document.
pub open spec fn user_name_key() -> Seq<char> {
    seq![',', '"', 'n', 'a', 'm', 'e', '"', ':']
}

/// The opening of an `AuthRequest` document, up to the value of `username`.
pub open spec fn req_open() -> Seq<char> {
    seq!['{', '"', 'u', 's', 'e', 'r', 'n', 'a', 'm', 'e', '"', ':']
}

/// The key of the `password` field of an `AuthRequest` document.
pub open spec fn req_password_key() -> Seq<char> {
    seq![',', '"', 'p', 'a', 's', 's', 'w', 'o', 'r', 'd', '"', ':']
}

/// The opening of an `AuthResponse` document, up to the embedded user.
pub open spec fn resp_open() -> Seq<char> {
    seq!['{', '"', 'u', 's', 'e', 'r', '"', ':']
}

/// The key of the `token` field of an `AuthResponse` document.
pub open spec fn resp_token_key() -> Seq<char> {
    seq![',', '"', 't', 'o', 'k', 'e', 'n', '"', ':']
}

/// The opening of an envelope document in `Call` state.
pub open spec fn call_key() -> Seq<char> {
    seq!['{', '"', 'C', 'a', 'l', 'l', '"', ':']
}

/// The opening of an envelope document in `Return` state.
pub open spec fn return_key() -> Seq<char> {
    seq!['{', '"', 'R', 'e', 't', 'u', 'r', 'n', '"', ':']
}

/// The opening of an `APICollection` document under its `Auth` tag.
pub open spec fn auth_key() -> Seq<char> {
    seq!['{', '"', 'A', 'u', 't', 'h', '"', ':']
}

/// The document of a `User`.
pub open spec fn user_json(v: UserV) -> Seq<char> {
    user_open() + digits_of(v.id) + user_name_key() + jstr(v.name) + seq!['}']
}

/// The document of an `AuthRequest`.
pub open spec fn auth_request_json(v: AuthRequestV) -> Seq<char> {
    req_open() + jstr(v.username) + req_password_key() + jstr(v.password) + seq!['}']
}

/// The document of an `AuthResponse`, embedding the user's document.
pub open spec fn auth_response_json(v: AuthResponseV) -> Seq<char> {
    resp_open() + user_json(v.user) + resp_token_key() + jstr(v.token) + seq!['}']
}

/// The document of an envelope: its payload's document under the state tag.
pub open spec fn api_json(v: ApiV<AuthRequestV, AuthResponseV>) -> Seq<char> {
    match v {
        ApiV::Call(req) => call_key() + auth_request_json(req) + seq!['}'],
        ApiV::Return(resp) => return_key() + auth_response_json(resp) + seq!['}'],
    }
}

/// The document of an `APICollection`: its envelope's document under the
/// API's tag.
pub open spec fn api_collection_json(v: APICollectionV) -> Seq<char> {
    match v {
        APICollectionV::Auth(env) => auth_key() + api_json(env) + seq!['}'],
    }
}

// ---------------------------------------------------------------------------
// The parsers of the documents.
// ---------------------------------------------------------------------------

/// Parses a `User` document at position `i`.
pub open spec fn parse_user(s: Seq<char>, i: int) -> Option<(UserV, int)> {
    match parse_lit(s, i, user_open()) {
        Some(j1) => match parse_u64(s, j1) {
            Some((id, j2)) => match parse_lit(s, j2, user_name_key() + seq!['"']) {
                Some(j3) => match parse_string_body(s, j3) {
                    Some((name, j4)) => match parse_lit(s, j4, seq!['}']) {
                        Some(j5) => Some((UserV { id, name }, j5)),
                        None => None,
                    },
                    None => None,
                },
                None => None,
            },
            None => None,
        },
        None => None,
    }
}

/// Parses an `AuthRequest` document at position `i`.
pub open spec fn parse_auth_request(s: Seq<char>, i: int) -> Option<(AuthRequestV, int)> {
    match parse_lit(s, i, req_open() + seq!['"']) {
        Some(j1) => match parse_string_body(s, j1) {
            Some((username, j2)) => match parse_lit(s, j2, req_password_key() + seq!['"']) {
                Some(j3) => match parse_string_body(s, j3) {
                    Some((password, j4)) => match parse_lit(s, j4, seq!['}']) {
                        Some(j5) => Some((AuthRequestV { username, password }, j5)),
                        None => None,
                    },
                    None => None,
                },
                None => None,
            },
            None => None,
        },
        None => None,
    }
}

/// Parses an `AuthResponse` document at position `i`.
pub open spec fn parse_auth_response(s: Seq<char>, i: int) -> Option<(AuthResponseV, int)> {
    match parse_lit(s, i, resp_open()) {
        Some(j1) => match parse_user(s, j1) {
            Some((user, j2)) => match parse_lit(s, j2, resp_token_key() + seq!['"']) {
                Some(j3) => match parse_string_body(s, j3) {
                    Some((token, j4)) => match parse_lit(s, j4, seq!['}']) {
                        Some(j5) => Some((AuthResponseV { user, token }, j5)),
                        None => None,
                    },
                    None => None,
                },
                None => None,
            },
            None => None,
        },
        None => None,
    }
}

/// Parses an envelope document at position `i`: first as a `Call`, else as a
/// `Return`.
pub open spec fn parse_api(s: Seq<char>, i: int) -> Option<(
    ApiV<AuthRequestV, AuthResponseV>,
    int,
)> {
    match parse_lit(s, i, call_key()) {
        Some(j1) => match parse_auth_request(s, j1) {
            Some((req, j2)) => match parse_lit(s, j2, seq!['}']) {
                Some(j3) => Some((ApiV::Call(req), j3)),
                None => None,
            },
            None => None,
        },
        None => match parse_lit(s, i, return_key()) {
            Some(j1) => match parse_auth_response(s, j1) {
                Some((resp, j2)) => match parse_lit(s, j2, seq!['}']) {
                    Some(j3) => Some((ApiV::Return(resp), j3)),
                    None => None,
                },
                None => None,
            },
            None => None,
        },
    }
}

/// Parses an `APICollection` document at position `i`.
pub open spec fn parse_api_collection(s: Seq<char>, i: int) -> Option<(APICollectionV, int)> {
    match parse_lit(s, i, auth_key()) {
        Some(j1) => match parse_api(s, j1) {
            Some((env, j2)) => match parse_lit(s, j2, seq!['}']) {
                Some(j3) => Some((APICollectionV::Auth(env), j3)),
                None => None,
            },
            None => None,
        },
        None => None,
    }
}

// ---------------------------------------------------------------------------
// Round trip: parsing a document yields the value it was made from.
// ---------------------------------------------------------------------------

/// A slice of a matched window is the matching slice of the text.
proof fn lemma_subrange_of_subrange(t: Seq<char>, i: int, w: Seq<char>, o: int, l: int)
    requires
        0 <= i,
        i + w.len() <= t.len(),
        t.subrange(i, i + w.len()) == w,
        0 <= o,
        0 <= l,
        o + l <= w.len(),
    ensures
        t.subrange(i + o, i + o + l) == w.subrange(o, o + l),
{
    assert forall|k: int| 0 <= k < l implies #[trigger] t.subrange(i + o, i + o + l)[k]
        == w.subrange(o, o + l)[k] by {
        assert(w[o + k] == t.subrange(i, i + w.len())[o + k]);
    }
    assert(t.subrange(i + o, i + o + l) =~= w.subrange(o, o + l));
}

/// A character of a matched window is the matching character of the text.
proof fn lemma_char_of_subrange(t: Seq<char>, i: int, w: Seq<char>, o: int)
    requires
        0 <= i,
        i + w.len() <= t.len(),
        t.subrange(i, i + w.len()) == w,
        0 <= o < w.len(),
    ensures
        t[i + o] == w[o],
{
    assert(w[o] == t.subrange(i, i + w.len())[o]);
}

/// Wherever the text at `i` reads as the document of `v`, parsing a `User`
/// there yields `v` and consumes exactly the document.
proof fn lemma_parse_user_at(t: Seq<char>, i: int, v: UserV)
    requires
        0 <= i,
        i + user_json(v).len() <= t.len(),
        t.subrange(i, i + user_json(v).len()) == user_json(v),
    ensures
        parse_user(t, i) == Some((v, i + user_json(v).len())),
{
    let w = user_json(v);
    let d = digits_of(v.id);
    let e = escape_seq(v.name);
    let o1: int = 6;
    let o2: int = o1 + d.len();
    let o3: int = o2 + 9;
    let o4: int = o3 + e.len() + 1;
    assert(w.len() == o4 + 1);

    lemma_subrange_of_subrange(t, i, w, 0, 6);
    assert(w.subrange(0, 6) =~= user_open());
    assert(parse_lit(t, i, user_open()) == Some(i + o1));

    lemma_subrange_of_subrange(t, i, w, o1, d.len() as int);
    assert(w.subrange(o1, o2) =~= d);
    lemma_char_of_subrange(t, i, w, o2);
    assert(w[o2] == ',');
    assert(!is_digit(','));
    lemma_parse_number(t, i + o1, v.id);
    assert(parse_u64(t, i + o1) == Some((v.id, i + o2)));

    lemma_subrange_of_subrange(t, i, w, o2, 9);
    assert(w.subrange(o2, o2 + 9) =~= user_name_key() + seq!['"']);
    assert(parse_lit(t, i + o2, user_name_key() + seq!['"']) == Some(i + o3));

    lemma_subrange_of_subrange(t, i, w, o3, e.len() as int + 1);
    assert(w.subrange(o3, o4) =~= e + seq!['"']);
    lemma_parse_escape(t, i + o3, v.name);
    assert(parse_string_body(t, i + o3) == Some((v.name, i + o4)));

    lemma_subrange_of_subrange(t, i, w, o4, 1);
    assert(w.subrange(o4, o4 + 1) =~= seq!['}']);
    assert(parse_lit(t, i + o4, seq!['}']) == Some(i + o4 + 1));

    assert(UserV { id: v.id, name: v.name } == v);
}

/// Wherever the text at `i` reads as the document of `v`, parsing an
/// `AuthRequest` there yields `v` and consumes exactly the document.
proof fn lemma_parse_auth_request_at(t: Seq<char>, i: int, v: AuthRequestV)
    requires
        0 <= i,
        i + auth_request_json(v).len() <= t.len(),
        t.subrange(i, i + auth_request_json(v).len()) == auth_request_json(v),
    ensures
        parse_auth_request(t, i) == Some((v, i + auth_request_json(v).len())),
{
    let w = auth_request_json(v);
    let e1 = escape_seq(v.username);
    let e2 = escape_seq(v.password);
    let o1: int = 13;
    let o2: int = o1 + e1.len() + 1;
    let o3: int = o2 + 13;
    let o4: int = o3 + e2.len() + 1;
    assert(w.len() == o4 + 1);

    lemma_subrange_of_subrange(t, i, w, 0, 13);
    assert(w.subrange(0, 13) =~= req_open() + seq!['"']);
    assert(parse_lit(t, i, req_open() + seq!['"']) == Some(i + o1));

    lemma_subrange_of_subrange(t, i, w, o1, e1.len() as int + 1);
    assert(w.subrange(o1, o2) =~= e1 + seq!['"']);
    lemma_parse_escape(t, i + o1, v.username);
    assert(parse_string_body(t, i + o1) == Some((v.username, i + o2)));

    lemma_subrange_of_subrange(t, i, w, o2, 13);
    assert(w.subrange(o2, o2 + 13) =~= req_password_key() + seq!['"']);
    assert(parse_lit(t, i + o2, req_password_key() + seq!['"']) == Some(i + o3));

    lemma_subrange_of_subrange(t, i, w, o3, e2.len() as int + 1);
    assert(w.subrange(o3, o4) =~= e2 + seq!['"']);
    lemma_parse_escape(t, i + o3, v.password);
    assert(parse_string_body(t, i + o3) == Some((v.password, i + o4)));

    lemma_subrange_of_subrange(t, i, w, o4, 1);
    assert(w.subrange(o4, o4 + 1) =~= seq!['}']);
    assert(parse_lit(t, i + o4, seq!['}']) == Some(i + o4 + 1));

    assert(AuthRequestV { username: v.username, password: v.password } == v);
}

/// Wherever the text at `i` reads as the document of `v`, parsing an
/// `AuthResponse` there yields `v` and consumes exactly the document.
proof fn lemma_parse_auth_response_at(t: Seq<char>, i: int, v: AuthResponseV)
    requires
        0 <= i,
        i + auth_response_json(v).len() <= t.len(),
        t.subrange(i, i + auth_response_json(v).len()) == auth_response_json(v),
    ensures
        parse_auth_response(t, i) == Some((v, i + auth_response_json(v).len())),
{
    let w = auth_response_json(v);
    let u = user_json(v.user);
    let e = escape_seq(v.token);
    let o1: int = 8;
    let o2: int = o1 + u.len();
    let o3: int = o2 + 10;
    let o4: int = o3 + e.len() + 1;
    assert(w.len() == o4 + 1);

    lemma_subrange_of_subrange(t, i, w, 0, 8);
    assert(w.subrange(0, 8) =~= resp_open());
    assert(parse_lit(t, i, resp_open()) == Some(i + o1));

    lemma_subrange_of_subrange(t, i, w, o1, u.len() as int);
    assert(w.subrange(o1, o2) =~= u);
    lemma_parse_user_at(t, i + o1, v.user);
    assert(parse_user(t, i + o1) == Some((v.user, i + o2)));

    lemma_subrange_of_subrange(t, i, w, o2, 10);
    assert(w.subrange(o2, o2 + 10) =~= resp_token_key() + seq!['"']);
    assert(parse_lit(t, i + o2, resp_token_key() + seq!['"']) == Some(i + o3));

    lemma_subrange_of_subrange(t, i, w, o3, e.len() as int + 1);
    assert(w.subrange(o3, o4) =~= e + seq!['"']);
    lemma_parse_escape(t, i + o3, v.token);
    assert(parse_string_body(t, i + o3) == Some((v.token, i + o4)));

    lemma_subrange_of_subrange(t, i, w, o4, 1);
    assert(w.subrange(o4, o4 + 1) =~= seq!['}']);
    assert(parse_lit(t, i + o4, seq!['}']) == Some(i + o4 + 1));

    assert(AuthResponseV { user: v.user, token: v.token } == v);
}

/// Wherever the text at `i` reads as the document of `v`, parsing an
/// envelope there yields `v` and consumes exactly the document.
proof fn lemma_parse_api_at(t: Seq<char>, i: int, v: ApiV<AuthRequestV, AuthResponseV>)
    requires
        0 <= i,
        i + api_json(v).len() <= t.len(),
        t.subrange(i, i + api_json(v).len()) == api_json(v),
    ensures
        parse_api(t, i) == Some((v, i + api_json(v).len())),
{
    let w = api_json(v);
    match v {
        ApiV::Call(req) => {
            let q = auth_request_json(req);
            let o1: int = 8;
            let o2: int = o1 + q.len();
            assert(w.len() == o2 + 1);

            lemma_subrange_of_subrange(t, i, w, 0, 8);
            assert(w.subrange(0, 8) =~= call_key());
            assert(parse_lit(t, i, call_key()) == Some(i + o1));

            lemma_subrange_of_subrange(t, i, w, o1, q.len() as int);
            assert(w.subrange(o1, o2) =~= q);
            lemma_parse_auth_request_at(t, i + o1, req);

            lemma_subrange_of_subrange(t, i, w, o2, 1);
            assert(w.subrange(o2, o2 + 1) =~= seq!['}']);
            assert(parse_lit(t, i + o2, seq!['}']) == Some(i + o2 + 1));
        },
        ApiV::Return(resp) => {
            let p = auth_response_json(resp);
            let o1: int = 10;
            let o2: int = o1 + p.len();
            assert(w.len() == o2 + 1);

            // the Call tag does not match: the third character differs
            lemma_char_of_subrange(t, i, w, 2);
            assert(w[2] == 'R');
            if t.subrange(i, i + 8) == call_key() {
                assert(t.subrange(i, i + 8)[2] == 'C');
                assert(t[i + 2] == 'C');
                assert(false);
            }
            assert(parse_lit(t, i, call_key()) is None);

            lemma_subrange_of_subrange(t, i, w, 0, 10);
            assert(w.subrange(0, 10) =~= return_key());
            assert(parse_lit(t, i, return_key()) == Some(i + o1));

            lemma_subrange_of_subrange(t, i, w, o1, p.len() as int);
            assert(w.subrange(o1, o2) =~= p);
            lemma_parse_auth_response_at(t, i + o1, resp);

            lemma_subrange_of_subrange(t, i, w, o2, 1);
            assert(w.subrange(o2, o2 + 1) =~= seq!['}']);
            assert(parse_lit(t, i + o2, seq!['}']) == Some(i + o2 + 1));
        },
    }
}

/// Wherever the text at `i` reads as the document of `v`, parsing an
/// `APICollection` there yields `v` and consumes exactly the document.
proof fn lemma_parse_api_collection_at(t: Seq<char>, i: int, v: APICollectionV)
    requires
        0 <= i,
        i + api_collection_json(v).len() <= t.len(),
        t.subrange(i, i + api_collection_json(v).len()) == api_collection_json(v),
    ensures
        parse_api_collection(t, i) == Some((v, i + api_collection_json(v).len())),
{
    let w = api_collection_json(v);
    match v {
        APICollectionV::Auth(env) => {
            let a = api_json(env);
            let o1: int = 8;
            let o2: int = o1 + a.len();
            assert(w.len() == o2 + 1);

            lemma_subrange_of_subrange(t, i, w, 0, 8);
            assert(w.subrange(0, 8) =~= auth_key());
            assert(parse_lit(t, i, auth_key()) == Some(i + o1));

            lemma_subrange_of_subrange(t, i, w, o1, a.len() as int);
            assert(w.subrange(o1, o2) =~= a);
            lemma_parse_api_at(t, i + o1, env);

            lemma_subrange_of_subrange(t, i, w, o2, 1);
            assert(w.subrange(o2, o2 + 1) =~= seq!['}']);
            assert(parse_lit(t, i + o2, seq!['}']) == Some(i + o2 + 1));
        },
    }
}

// ---------------------------------------------------------------------------
// Whole documents and the round-trip laws.
// ---------------------------------------------------------------------------

/// Reads a whole `User` document, nothing before it and nothing after.
pub open spec fn from_user_json(s: Seq<char>) -> Option<UserV> {
    match parse_user(s, 0) {
        Some((v, j)) => if j == s.len() {
            Some(v)
        } else {
            None
        },
        None => None,
    }
}

/// Reads a whole `AuthRequest` document.
pub open spec fn from_auth_request_json(s: Seq<char>) -> Option<AuthRequestV> {
    match parse_auth_request(s, 0) {
        Some((v, j)) => if j == s.len() {
            Some(v)
        } else {
            None
        },
        None => None,
    }
}

/// Reads a whole `AuthResponse` document.
pub open spec fn from_auth_response_json(s: Seq<char>) -> Option<AuthResponseV> {
    match parse_auth_response(s, 0) {
        Some((v, j)) => if j == s.len() {
            Some(v)
        } else {
            None
        },
        None => None,
    }
}

/// Reads a whole envelope document.
pub open spec fn from_api_json(s: Seq<char>) -> Option<ApiV<AuthRequestV, AuthResponseV>> {
    match parse_api(s, 0) {
        Some((v, j)) => if j == s.len() {
            Some(v)
        } else {
            None
        },
        None => None,
    }
}

/// Reads a whole `APICollection` document.
pub open spec fn from_api_collection_json(s: Seq<char>) -> Option<APICollectionV> {
    match parse_api_collection(s, 0) {
        Some((v, j)) => if j == s.len() {
            Some(v)
        } else {
            None
        },
        None => None,
    }
}

/// Round trip for `User`: reading the document of any value yields the value
/// back.
pub proof fn lemma_user_round_trip(v: UserV)
    ensures
        from_user_json(user_json(v)) == Some(v),
{
    let w = user_json(v);
    assert(w.subrange(0, w.len() as int) =~= w);
    lemma_parse_user_at(w, 0, v);
}

/// Round trip for `AuthRequest`.
pub proof fn lemma_auth_request_round_trip(v: AuthRequestV)
    ensures
        from_auth_request_json(auth_request_json(v)) == Some(v),
{
    let w = auth_request_json(v);
    assert(w.subrange(0, w.len() as int) =~= w);
    lemma_parse_auth_request_at(w, 0, v);
}

/// Round trip for `AuthResponse`.
pub proof fn lemma_auth_response_round_trip(v: AuthResponseV)
    ensures
        from_auth_response_json(auth_response_json(v)) == Some(v),
{
    let w = auth_response_json(v);
    assert(w.subrange(0, w.len() as int) =~= w);
    lemma_parse_auth_response_at(w, 0, v);
}

/// Round trip for the envelope, in either state.
pub proof fn lemma_api_round_trip(v: ApiV<AuthRequestV, AuthResponseV>)
    ensures
        from_api_json(api_json(v)) == Some(v),
{
    let w = api_json(v);
    assert(w.subrange(0, w.len() as int) =~= w);
    lemma_parse_api_at(w, 0, v);
}

/// Round trip for `APICollection`.
pub proof fn lemma_api_collection_round_trip(v: APICollectionV)
    ensures
        from_api_collection_json(api_collection_json(v)) == Some(v),
{
    let w = api_collection_json(v);
    assert(w.subrange(0, w.len() as int) =~= w);
    lemma_parse_api_collection_at(w, 0, v);
}

// ---------------------------------------------------------------------------
// Executable serialization.
// ---------------------------------------------------------------------------

/// Relies on str::chars: yields exactly the characters of the string, in
/// order.
#[verifier::external_body]
fn str_chars(s: &str) -> (r: Vec<char>)
    ensures
        r@ == s@,
{
    s.chars().collect()
}

/// Relies on String's FromIterator over char: collects exactly the given
/// characters, in order.
#[verifier::external_body]
fn chars_to_string(v: &Vec<char>) -> (r: String)
    ensures
        r@ == v@,
{
    v.iter().collect()
}

/// Escaping distributes over concatenation.
proof fn lemma_escape_concat(a: Seq<char>, b: Seq<char>)
    ensures
        escape_seq(a + b) == escape_seq(a) + escape_seq(b),
    decreases a.len(),
{
    if a.len() == 0 {
        assert(a + b =~= b);
        assert(escape_seq(a) + escape_seq(b) =~= escape_seq(b));
    } else {
        assert((a + b)[0] == a[0]);
        assert((a + b).drop_first() =~= a.drop_first() + b);
        lemma_escape_concat(a.drop_first(), b);
        assert(escaped_char(a[0]) + (escape_seq(a.drop_first()) + escape_seq(b)) =~= (escaped_char(
            a[0],
        ) + escape_seq(a.drop_first())) + escape_seq(b));
    }
}

/// Appends the escaped body of `s` to `out`.
fn push_escaped(out: &mut Vec<char>, s: &Vec<char>)
    ensures
        final(out)@ == old(out)@ + escape_seq(s@),
{
    let mut k: usize = 0;
    proof {
        assert(out@ =~= out@ + escape_seq(s@.subrange(0, 0)));
    }
    while k < s.len()
        invariant
            k <= s.len(),
            out@ == old(out)@ + escape_seq(s@.subrange(0, k as int)),
        decreases s.len() - k,
    {
        let c = s[k];
        if c == '"' || c == '\\' {
            out.push('\\');
        }
        out.push(c);
        proof {
            let p = s@.subrange(0, k as int);
            assert(s@.subrange(0, k + 1) =~= p + seq![s@[k as int]]);
            lemma_escape_concat(p, seq![s@[k as int]]);
            assert(seq![s@[k as int]].drop_first() =~= Seq::<char>::empty());
            assert(escape_seq(Seq::<char>::empty()) == Seq::<char>::empty());
            assert(escape_seq(seq![s@[k as int]]) =~= escaped_char(s@[k as int]));
            assert(out@ =~= old(out)@ + escape_seq(s@.subrange(0, k + 1)));
        }
        k += 1;
    }
    proof {
        assert(s@.subrange(0, s@.len() as int) =~= s@);
    }
}

/// Appends the decimal digits of `n` to `out`.
fn push_digits(out: &mut Vec<char>, n: u64)
    ensures
        final(out)@ == old(out)@ + digits_of(n),
    decreases n,
{
    if n < 10 {
        out.push((n as u8 + 48) as char);
        proof {
            assert(out@ =~= old(out)@ + digits_of(n));
        }
    } else {
        push_digits(out, n / 10);
        out.push(((n % 10) as u8 + 48) as char);
        proof {
            assert(digits_of(n) == digits_of((n as int / 10) as u64) + seq![
                digit_char(n as int % 10),
            ]);
            assert(out@ =~= old(out)@ + digits_of(n));
        }
    }
}

/// Appends a JSON string (quotes and escaped body) holding `s` to `out`.
fn push_jstr(out: &mut Vec<char>, s: &String)
    ensures
        final(out)@ == old(out)@ + jstr(s@),
{
    out.push('"');
    let cs = str_chars(s.as_str());
    push_escaped(out, &cs);
    out.push('"');
    proof {
        assert(out@ =~= old(out)@ + jstr(s@));
    }
}

/// Appends the document of `u` to `out`.
fn write_user(out: &mut Vec<char>, u: &User)
    ensures
        final(out)@ == old(out)@ + user_json(u@),
{
    out.push('{');
    out.push('"');
    out.push('i');
    out.push('d');
    out.push('"');
    out.push(':');
    push_digits(out, u.id);
    out.push(',');
    out.push('"');
    out.push('n');
    out.push('a');
    out.push('m');
    out.push('e');
    out.push('"');
    out.push(':');
    push_jstr(out, &u.name);
    out.push('}');
    proof {
        assert(out@ =~= old(out)@ + user_json(u@));
    }
}

/// Appends the document of `r` to `out`.
fn write_auth_request(out: &mut Vec<char>, r: &AuthRequest)
    ensures
        final(out)@ == old(out)@ + auth_request_json(r@),
{
    out.push('{');
    out.push('"');
    out.push('u');
    out.push('s');
    out.push('e');
    out.push('r');
    out.push('n');
    out.push('a');
    out.push('m');
    out.push('e');
    out.push('"');
    out.push(':');
    push_jstr(out, &r.username);
    out.push(',');
    out.push('"');
    out.push('p');
    out.push('a');
    out.push('s');
    out.push('s');
    out.push('w');
    out.push('o');
    out.push('r');
    out.push('d');
    out.push('"');
    out.push(':');
    push_jstr(out, &r.password);
    out.push('}');
    proof {
        assert(out@ =~= old(out)@ + auth_request_json(r@));
    }
}

/// Appends the document of `p` to `out`.
fn write_auth_response(out: &mut Vec<char>, p: &AuthResponse)
    ensures
        final(out)@ == old(out)@ + auth_response_json(p@),
{
    out.push('{');
    out.push('"');
    out.push('u');
    out.push('s');
    out.push('e');
    out.push('r');
    out.push('"');
    out.push(':');
    write_user(out, &p.user);
    out.push(',');
    out.push('"');
    out.push('t');
    out.push('o');
    out.push('k');
    out.push('e');
    out.push('n');
    out.push('"');
    out.push(':');
    push_jstr(out, &p.token);
    out.push('}');
    proof {
        assert(out@ =~= old(out)@ + auth_response_json(p@));
    }
}

/// Appends the document of the envelope `e` to `out`.
fn write_api(out: &mut Vec<char>, e: &API<AuthRequest, AuthResponse>)
    ensures
        final(out)@ == old(out)@ + api_json(e@),
{
    match e {
        API::Call(req) => {
            out.push('{');
            out.push('"');
            out.push('C');
            out.push('a');
            out.push('l');
            out.push('l');
            out.push('"');
            out.push(':');
            write_auth_request(out, req);
            out.push('}');
            proof {
                assert(out@ =~= old(out)@ + api_json(e@));
            }
        },
        API::Return(resp) => {
            out.push('{');
            out.push('"');
            out.push('R');
            out.push('e');
            out.push('t');
            out.push('u');
            out.push('r');
            out.push('n');
            out.push('"');
            out.push(':');
            write_auth_response(out, resp);
            out.push('}');
            proof {
                assert(out@ =~= old(out)@ + api_json(e@));
            }
        },
    }
}

/// Appends the document of the collection `c` to `out`.
fn write_api_collection(out: &mut Vec<char>, c: &APICollection)
    ensures
        final(out)@ == old(out)@ + api_collection_json(c@),
{
    match c {
        APICollection::Auth(env) => {
            out.push('{');
            out.push('"');
            out.push('A');
            out.push('u');
            out.push('t');
            out.push('h');
            out.push('"');
            out.push(':');
            write_api(out, env);
            out.push('}');
            proof {
                assert(out@ =~= old(out)@ + api_collection_json(c@));
            }
        },
    }
}

impl User {
    /// Serializes to the canonical document of this value.
    pub fn to_json(&self) -> (r: String)
        ensures
            r@ == user_json(self@),
    {
        let mut out: Vec<char> = Vec::new();
        write_user(&mut out, self);
        chars_to_string(&out)
    }
}

impl AuthRequest {
    /// Serializes to the canonical document of this value.
    pub fn to_json(&self) -> (r: String)
        ensures
            r@ == auth_request_json(self@),
    {
        let mut out: Vec<char> = Vec::new();
        write_auth_request(&mut out, self);
        chars_to_string(&out)
    }
}

impl AuthResponse {
    /// Serializes to the canonical document of this value.
    pub fn to_json(&self) -> (r: String)
        ensures
            r@ == auth_response_json(self@),
    {
        let mut out: Vec<char> = Vec::new();
        write_auth_response(&mut out, self);
        chars_to_string(&out)
    }
}

impl API<AuthRequest, AuthResponse> {
    /// Serializes to the canonical document of this envelope.
    pub fn to_json(&self) -> (r: String)
        ensures
            r@ == api_json(self@),
    {
        let mut out: Vec<char> = Vec::new();
        write_api(&mut out, self);
        chars_to_string(&out)
    }
}

impl APICollection {
    /// Serializes to the canonical document of this value.
    pub fn to_json(&self) -> (r: String)
        ensures
            r@ == api_collection_json(self@),
    {
        let mut out: Vec<char> = Vec::new();
        write_api_collection(&mut out, self);
        chars_to_string(&out)
    }
}

// ---------------------------------------------------------------------------
// Executable parsing.
// ---------------------------------------------------------------------------

/// Matches the fixed text `lit` at position `i` of `s`.
fn match_lit(s: &Vec<char>, i: usize, lit: &Vec<char>) -> (r: Option<usize>)
    ensures
        match r {
            Some(j) => parse_lit(s@, i as int, lit@) == Some(j as int) && j <= s.len(),
            None => parse_lit(s@, i as int, lit@) is None,
        },
{
    if i > s.len() || s.len() - i < lit.len() {
        return None;
    }
    let mut k: usize = 0;
    while k < lit.len()
        invariant
            i + lit.len() <= s.len(),
            k <= lit.len(),
            forall|m: int| 0 <= m < k ==> s@[i + m] == #[trigger] lit@[m],
        decreases lit.len() - k,
    {
        if s[i + k] != lit[k] {
            proof {
                if s@.subrange(i as int, i + lit@.len()) == lit@ {
                    assert(s@.subrange(i as int, i + lit@.len())[k as int] == lit@[k as int]);
                    assert(s@[i + k] == lit@[k as int]);
                }
            }
            return None;
        }
        k += 1;
    }
    proof {
        assert(s@.subrange(i as int, i + lit@.len()) =~= lit@);
    }
    Some(i + lit.len())
}

/// Parses a string body at `i`: the unescaped content up to the closing
/// quote.
fn parse_string_body_exec(s: &Vec<char>, i: usize) -> (r: Option<(Vec<char>, usize)>)
    ensures
        match r {
            Some((t, j)) => parse_string_body(s@, i as int) == Some((t@, j as int)) && j
                <= s.len(),
            None => parse_string_body(s@, i as int) is None,
        },
    decreases s@.len() - i,
{
    if i >= s.len() {
        return None;
    }
    let c = s[i];
    if c == '"' {
        let t: Vec<char> = Vec::new();
        Some((t, i + 1))
    } else if c == '\\' {
        if i + 1 < s.len() {
            match parse_string_body_exec(s, i + 2) {
                Some((mut t, j)) => {
                    let ghost t0 = t@;
                    t.insert(0, s[i + 1]);
                    proof {
                        assert(t@ =~= seq![s@[i + 1]] + t0);
                    }
                    Some((t, j))
                },
                None => None,
            }
        } else {
            None
        }
    } else {
        match parse_string_body_exec(s, i + 1) {
            Some((mut t, j)) => {
                let ghost t0 = t@;
                t.insert(0, c);
                proof {
                    assert(t@ =~= seq![s@[i as int]] + t0);
                }
                Some((t, j))
            },
            None => None,
        }
    }
}

/// Greedily parses digits at `i` onto `acc`.
fn parse_u64_rec_exec(s: &Vec<char>, i: usize, acc: u64) -> (r: Option<(u64, usize)>)
    requires
        i <= s.len(),
    ensures
        match r {
            Some((n, j)) => parse_u64_rec(s@, i as int, acc) == Some((n, j as int)) && j
                <= s.len(),
            None => parse_u64_rec(s@, i as int, acc) is None,
        },
    decreases s@.len() - i,
{
    if i < s.len() {
        let cu = s[i] as u32;
        if 48 <= cu && cu <= 57 {
            let d = (cu - 48) as u64;
            if acc <= (u64::MAX - d) / 10 {
                proof {
                    lemma_div10(acc as int, (u64::MAX - d) as int);
                }
                return parse_u64_rec_exec(s, i + 1, acc * 10 + d);
            } else {
                return None;
            }
        }
    }
    Some((acc, i))
}

/// Parses a decimal number at `i`: at least one digit.
fn parse_u64_exec(s: &Vec<char>, i: usize) -> (r: Option<(u64, usize)>)
    ensures
        match r {
            Some((n, j)) => parse_u64(s@, i as int) == Some((n, j as int)) && j <= s.len(),
            None => parse_u64(s@, i as int) is None,
        },
{
    if i < s.len() {
        let cu = s[i] as u32;
        if 48 <= cu && cu <= 57 {
            return parse_u64_rec_exec(s, i, 0);
        }
    }
    None
}

fn lit_user_open() -> (r: Vec<char>)
    ensures
        r@ == user_open(),
{
    let mut v: Vec<char> = Vec::new();
    v.push('{');
    v.push('"');
    v.push('i');
    v.push('d');
    v.push('"');
    v.push(':');
    proof {
        assert(v@ =~= user_open());
    }
    v
}

fn lit_user_name_key_q() -> (r: Vec<char>)
    ensures
        r@ == user_name_key() + seq!['"'],
{
    let mut v: Vec<char> = Vec::new();
    v.push(',');
    v.push('"');
    v.push('n');
    v.push('a');
    v.push('m');
    v.push('e');
    v.push('"');
    v.push(':');
    v.push('"');
    proof {
        assert(v@ =~= user_name_key() + seq!['"']);
    }
    v
}

fn lit_req_open_q() -> (r: Vec<char>)
    ensures
        r@ == req_open() + seq!['"'],
{
    let mut v: Vec<char> = Vec::new();
    v.push('{');
    v.push('"');
    v.push('u');
    v.push('s');
    v.push('e');
    v.push('r');
    v.push('n');
    v.push('a');
    v.push('m');
    v.push('e');
    v.push('"');
    v.push(':');
    v.push('"');
    proof {
        assert(v@ =~= req_open() + seq!['"']);
    }
    v
}

fn lit_req_password_key_q() -> (r: Vec<char>)
    ensures
        r@ == req_password_key() + seq!['"'],
{
    let mut v: Vec<char> = Vec::new();
    v.push(',');
    v.push('"');
    v.push('p');
    v.push('a');
    v.push('s');
    v.push('s');
    v.push('w');
    v.push('o');
    v.push('r');
    v.push('d');
    v.push('"');
    v.push(':');
    v.push('"');
    proof {
        assert(v@ =~= req_password_key() + seq!['"']);
    }
    v
}

fn lit_resp_open() -> (r: Vec<char>)
    ensures
        r@ == resp_open(),
{
    let mut v: Vec<char> = Vec::new();
    v.push('{');
    v.push('"');
    v.push('u');
    v.push('s');
    v.push('e');
    v.push('r');
    v.push('"');
    v.push(':');
    proof {
        assert(v@ =~= resp_open());
    }
    v
}

fn lit_resp_token_key_q() -> (r: Vec<char>)
    ensures
        r@ == resp_token_key() + seq!['"'],
{
    let mut v: Vec<char> = Vec::new();
    v.push(',');
    v.push('"');
    v.push('t');
    v.push('o');
    v.push('k');
    v.push('e');
    v.push('n');
    v.push('"');
    v.push(':');
    v.push('"');
    proof {
        assert(v@ =~= resp_token_key() + seq!['"']);
    }
    v
}

fn lit_call_key() -> (r: Vec<char>)
    ensures
        r@ == call_key(),
{
    let mut v: Vec<char> = Vec::new();
    v.push('{');
    v.push('"');
    v.push('C');
    v.push('a');
    v.push('l');
    v.push('l');
    v.push('"');
    v.push(':');
    proof {
        assert(v@ =~= call_key());
    }
    v
}

fn lit_return_key() -> (r: Vec<char>)
    ensures
        r@ == return_key(),
{
    let mut v: Vec<char> = Vec::new();
    v.push('{');
    v.push('"');
    v.push('R');
    v.push('e');
    v.push('t');
    v.push('u');
    v.push('r');
    v.push('n');
    v.push('"');
    v.push(':');
    proof {
        assert(v@ =~= return_key());
    }
    v
}

fn lit_auth_key() -> (r: Vec<char>)
    ensures
        r@ == auth_key(),
{
    let mut v: Vec<char> = Vec::new();
    v.push('{');
    v.push('"');
    v.push('A');
    v.push('u');
    v.push('t');
    v.push('h');
    v.push('"');
    v.push(':');
    proof {
        assert(v@ =~= auth_key());
    }
    v
}

fn lit_close() -> (r: Vec<char>)
    ensures
        r@ == seq!['}'],
{
    let mut v: Vec<char> = Vec::new();
    v.push('}');
    proof {
        assert(v@ =~= seq!['}']);
    }
    v
}

/// Parses a `User` document at `i`.
fn parse_user_exec(s: &Vec<char>, i: usize) -> (r: Option<(User, usize)>)
    ensures
        match r {
            Some((u, j)) => parse_user(s@, i as int) == Some((u@, j as int)) && j <= s.len(),
            None => parse_user(s@, i as int) is None,
        },
{
    let open = lit_user_open();
    let j1 = match match_lit(s, i, &open) {
        Some(j) => j,
        None => { return None; },
    };
    let (id, j2) = match parse_u64_exec(s, j1) {
        Some(x) => x,
        None => { return None; },
    };
    let namekey = lit_user_name_key_q();
    let j3 = match match_lit(s, j2, &namekey) {
        Some(j) => j,
        None => { return None; },
    };
    let (name_chars, j4) = match parse_string_body_exec(s, j3) {
        Some(x) => x,
        None => { return None; },
    };
    let close = lit_close();
    let j5 = match match_lit(s, j4, &close) {
        Some(j) => j,
        None => { return None; },
    };
    let u = User { id, name: chars_to_string(&name_chars) };
    Some((u, j5))
}

/// Parses an `AuthRequest` document at `i`.
fn parse_auth_request_exec(s: &Vec<char>, i: usize) -> (r: Option<(AuthRequest, usize)>)
    ensures
        match r {
            Some((q, j)) => parse_auth_request(s@, i as int) == Some((q@, j as int)) && j
                <= s.len(),
            None => parse_auth_request(s@, i as int) is None,
        },
{
    let open = lit_req_open_q();
    let j1 = match match_lit(s, i, &open) {
        Some(j) => j,
        None => { return None; },
    };
    let (username_chars, j2) = match parse_string_body_exec(s, j1) {
        Some(x) => x,
        None => { return None; },
    };
    let pwkey = lit_req_password_key_q();
    let j3 = match match_lit(s, j2, &pwkey) {
        Some(j) => j,
        None => { return None; },
    };
    let (password_chars, j4) = match parse_string_body_exec(s, j3) {
        Some(x) => x,
        None => { return None; },
    };
    let close = lit_close();
    let j5 = match match_lit(s, j4, &close) {
        Some(j) => j,
        None => { return None; },
    };
    let q = AuthRequest {
        username: chars_to_string(&username_chars),
        password: chars_to_string(&password_chars),
    };
    Some((q, j5))
}

/// Parses an `AuthResponse` document at `i`.
fn parse_auth_response_exec(s: &Vec<char>, i: usize) -> (r: Option<(AuthResponse, usize)>)
    ensures
        match r {
            Some((p, j)) => parse_auth_response(s@, i as int) == Some((p@, j as int)) && j
                <= s.len(),
            None => parse_auth_response(s@, i as int) is None,
        },
{
    let open = lit_resp_open();
    let j1 = match match_lit(s, i, &open) {
        Some(j) => j,
        None => { return None; },
    };
    let (user, j2) = match parse_user_exec(s, j1) {
        Some(x) => x,
        None => { return None; },
    };
    let tokenkey = lit_resp_token_key_q();
    let j3 = match match_lit(s, j2, &tokenkey) {
        Some(j) => j,
        None => { return None; },
    };
    let (token_chars, j4) = match parse_string_body_exec(s, j3) {
        Some(x) => x,
        None => { return None; },
    };
    let close = lit_close();
    let j5 = match match_lit(s, j4, &close) {
        Some(j) => j,
        None => { return None; },
    };
    let p = AuthResponse { user, token: chars_to_string(&token_chars) };
    Some((p, j5))
}

/// Parses an envelope document at `i`: first as a `Call`, else as a
/// `Return`.
fn parse_api_exec(s: &Vec<char>, i: usize) -> (r: Option<(API<AuthRequest, AuthResponse>, usize)>)
    ensures
        match r {
            Some((e, j)) => parse_api(s@, i as int) == Some((e@, j as int)) && j <= s.len(),
            None => parse_api(s@, i as int) is None,
        },
{
    let call = lit_call_key();
    match match_lit(s, i, &call) {
        Some(j1) => {
            let (req, j2) = match parse_auth_request_exec(s, j1) {
                Some(x) => x,
                None => { return None; },
            };
            let close = lit_close();
            let j3 = match match_lit(s, j2, &close) {
                Some(j) => j,
                None => { return None; },
            };
            Some((API::Call(req), j3))
        },
        None => {
            let ret = lit_return_key();
            let j1 = match match_lit(s, i, &ret) {
                Some(j) => j,
                None => { return None; },
            };
            let (resp, j2) = match parse_auth_response_exec(s, j1) {
                Some(x) => x,
                None => { return None; },
            };
            let close = lit_close();
            let j3 = match match_lit(s, j2, &close) {
                Some(j) => j,
                None => { return None; },
            };
            Some((API::Return(resp), j3))
        },
    }
}

/// Parses an `APICollection` document at `i`.
fn parse_api_collection_exec(s: &Vec<char>, i: usize) -> (r: Option<(APICollection, usize)>)
    ensures
        match r {
            Some((c, j)) => parse_api_collection(s@, i as int) == Some((c@, j as int)) && j
                <= s.len(),
            None => parse_api_collection(s@, i as int) is None,
        },
{
    let auth = lit_auth_key();
    let j1 = match match_lit(s, i, &auth) {
        Some(j) => j,
        None => { return None; },
    };
    let (env, j2) = match parse_api_exec(s, j1) {
        Some(x) => x,
        None => { return None; },
    };
    let close = lit_close();
    let j3 = match match_lit(s, j2, &close) {
        Some(j) => j,
        None => { return None; },
    };
    Some((APICollection::Auth(env), j3))
}

impl User {
    /// Reads a whole canonical `User` document.
    pub fn from_json(s: &str) -> (r: Option<User>)
        ensures
            match r {
                Some(u) => from_user_json(s@) == Some(u@),
                None => from_user_json(s@) is None,
            },
    {
        let cs = str_chars(s);
        match parse_user_exec(&cs, 0) {
            Some((u, j)) => if j == cs.len() {
                Some(u)
            } else {
                None
            },
            None => None,
        }
    }
}

impl AuthRequest {
    /// Reads a whole canonical `AuthRequest` document.
    pub fn from_json(s: &str) -> (r: Option<AuthRequest>)
        ensures
            match r {
                Some(q) => from_auth_request_json(s@) == Some(q@),
                None => from_auth_request_json(s@) is None,
            },
    {
        let cs = str_chars(s);
        match parse_auth_request_exec(&cs, 0) {
            Some((q, j)) => if j == cs.len() {
                Some(q)
            } else {
                None
            },
            None => None,
        }
    }
}

impl AuthResponse {
    /// Reads a whole canonical `AuthResponse` document.
    pub fn from_json(s: &str) -> (r: Option<AuthResponse>)
        ensures
            match r {
                Some(p) => from_auth_response_json(s@) == Some(p@),
                None => from_auth_response_json(s@) is None,
            },
    {
        let cs = str_chars(s);
        match parse_auth_response_exec(&cs, 0) {
            Some((p, j)) => if j == cs.len() {
                Some(p)
            } else {
                None
            },
            None => None,
        }
    }
}

impl API<AuthRequest, AuthResponse> {
    /// Reads a whole canonical envelope document.
    pub fn from_json(s: &str) -> (r: Option<API<AuthRequest, AuthResponse>>)
        ensures
            match r {
                Some(e) => from_api_json(s@) == Some(e@),
                None => from_api_json(s@) is None,
            },
    {
        let cs = str_chars(s);
        match parse_api_exec(&cs, 0) {
            Some((e, j)) => if j == cs.len() {
                Some(e)
            } else {
                None
            },
            None => None,
        }
    }
}

impl APICollection {
    /// Reads a whole canonical `APICollection` document.
    pub fn from_json(s: &str) -> (r: Option<APICollection>)
        ensures
            match r {
                Some(c) => from_api_collection_json(s@) == Some(c@),
                None => from_api_collection_json(s@) is None,
            },
    {
        let cs = str_chars(s);
        match parse_api_collection_exec(&cs, 0) {
            Some((c, j)) => if j == cs.len() {
                Some(c)
            } else {
                None
            },
            None => None,
        }
    }
}

} // verus!
