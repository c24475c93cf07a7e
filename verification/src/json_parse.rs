//! JSON parsing.
//!
//! The grammar is standard JSON restricted to the documents [`crate::json::Json`]
//! can hold: numbers must be 64-bit integers (a fraction or exponent is a
//! parse error), and `\u` escapes must name a scalar value.  When an object
//! literal repeats a key, the later binding wins.  The specification side is
//! a functional parser over `Seq<char>`; the executable parser returns
//! exactly what it defines.

use vstd::prelude::*;

use crate::json::{fields_lookup, jfields_of, jvals_of, JVal, Json};

verus! {

/// JSON insignificant whitespace.
pub open spec fn is_ws(c: char) -> bool {
    c == ' ' || c == '\t' || c == '\n' || c == '\r'
}

/// First position at or after `i` holding a non-whitespace character.
pub open spec fn skip_ws(s: Seq<char>, i: int) -> int
    decreases s.len() - i,
{
    if i < 0 || i >= s.len() {
        i
    } else if is_ws(s[i]) {
        skip_ws(s, i + 1)
    } else {
        i
    }
}

/// `lit` occurs in `s` at position `i`.
pub open spec fn lit_at(s: Seq<char>, i: int, lit: Seq<char>) -> bool {
    0 <= i && i + lit.len() <= s.len() && s.subrange(i, i + lit.len()) == lit
}

/// Value of a hexadecimal digit.
pub open spec fn hex_val(c: char) -> Option<int> {
    if '0' <= c && c <= '9' {
        Option::Some(c as int - 48)
    } else if 'a' <= c && c <= 'f' {
        Option::Some(c as int - 87)
    } else if 'A' <= c && c <= 'F' {
        Option::Some(c as int - 55)
    } else {
        Option::None
    }
}

/// Value of a decimal digit.
pub open spec fn dec_val(c: char) -> Option<int> {
    if '0' <= c && c <= '9' {
        Option::Some(c as int - 48)
    } else {
        Option::None
    }
}

/// The character a single-character escape stands for.
pub open spec fn esc_code(c: char) -> Option<char> {
    if c == '"' {
        Option::Some('"')
    } else if c == '\\' {
        Option::Some('\\')
    } else if c == '/' {
        Option::Some('/')
    } else if c == 'b' {
        Option::Some('\u{8}')
    } else if c == 'f' {
        Option::Some('\u{c}')
    } else if c == 'n' {
        Option::Some('\n')
    } else if c == 'r' {
        Option::Some('\r')
    } else if c == 't' {
        Option::Some('\t')
    } else {
        Option::None
    }
}

/// The body of a string literal from position `i` (past the opening quote)
/// to its closing quote: the characters it denotes and the position after
/// the closing quote.
pub open spec fn parse_str_body(s: Seq<char>, i: int) -> Option<(Seq<char>, int)>
    decreases s.len() - i,
{
    if i < 0 || i >= s.len() {
        Option::None
    } else if s[i] == '"' {
        Option::Some((Seq::empty(), i + 1))
    } else if s[i] == '\\' {
        if i + 2 > s.len() {
            Option::None
        } else if s[i + 1] == 'u' {
            if i + 6 > s.len() {
                Option::None
            } else {
                match (hex_val(s[i + 2]), hex_val(s[i + 3]), hex_val(s[i + 4]), hex_val(s[i + 5])) {
                    (Option::Some(a), Option::Some(b), Option::Some(c), Option::Some(d)) => {
                        let cp = 4096 * a + 256 * b + 16 * c + d;
                        if 0xD800 <= cp < 0xE000 {
                            Option::None
                        } else {
                            match parse_str_body(s, i + 6) {
                                Option::Some((rest, k)) => Option::Some(
                                    (seq![cp as char] + rest, k),
                                ),
                                Option::None => Option::None,
                            }
                        }
                    },
                    _ => Option::None,
                }
            }
        } else {
            match esc_code(s[i + 1]) {
                Option::Some(c) => match parse_str_body(s, i + 2) {
                    Option::Some((rest, k)) => Option::Some((seq![c] + rest, k)),
                    Option::None => Option::None,
                },
                Option::None => Option::None,
            }
        }
    } else {
        match parse_str_body(s, i + 1) {
            Option::Some((rest, k)) => Option::Some((seq![s[i]] + rest, k)),
            Option::None => Option::None,
        }
    }
}

/// End of the run of decimal digits starting at `i`.
pub open spec fn scan_digits(s: Seq<char>, i: int) -> int
    decreases s.len() - i,
{
    if i < 0 || i >= s.len() {
        i
    } else if dec_val(s[i]) is Some {
        scan_digits(s, i + 1)
    } else {
        i
    }
}

pub proof fn lemma_scan_digits(s: Seq<char>, i: int)
    requires
        0 <= i <= s.len(),
    ensures
        i <= scan_digits(s, i) <= s.len(),
        forall|j: int| i <= j < scan_digits(s, i) ==> dec_val(s[j]) is Some,
    decreases s.len() - i,
{
    if i < s.len() && dec_val(s[i]) is Some {
        lemma_scan_digits(s, i + 1);
    }
}

/// Value of the digit run `s[i..j]`, most significant digit first.
pub open spec fn digits_value(s: Seq<char>, i: int, j: int) -> int
    decreases j - i,
{
    if i >= j {
        0
    } else {
        digits_value(s, i, j - 1) * 10 + (match dec_val(s[j - 1]) {
            Option::Some(d) => d,
            Option::None => 0,
        })
    }
}

/// An integer literal at `i`: optional minus sign, digit run without a
/// leading zero, not followed by a fraction or exponent, in `i64` range.
pub open spec fn parse_int_at(s: Seq<char>, i: int) -> Option<(int, int)> {
    let neg = 0 <= i < s.len() && s[i] == '-';
    let d0 = if neg {
        i + 1
    } else {
        i
    };
    let end = scan_digits(s, d0);
    if end == d0 {
        Option::None
    } else if s[d0] == '0' && end > d0 + 1 {
        Option::None
    } else if end < s.len() && (s[end] == '.' || s[end] == 'e' || s[end] == 'E') {
        Option::None
    } else {
        let m = digits_value(s, d0, end);
        let v = if neg {
            -m
        } else {
            m
        };
        if v < -0x8000_0000_0000_0000 || v > 0x7fff_ffff_ffff_ffff {
            Option::None
        } else {
            Option::Some((v, end))
        }
    }
}

/// A JSON value at `i` (after optional whitespace) and the position that
/// follows it.
pub open spec fn parse_value_at(s: Seq<char>, i: int) -> Option<(JVal, int)>
    decreases s.len() - i, 0int,
{
    if i < 0 {
        Option::None
    } else {
        let j = skip_ws(s, i);
        if j < i || j >= s.len() {
            Option::None
        } else if s[j] == 'n' {
            if lit_at(s, j, seq!['n', 'u', 'l', 'l']) {
                Option::Some((JVal::Null, j + 4))
            } else {
                Option::None
            }
        } else if s[j] == 't' {
            if lit_at(s, j, seq!['t', 'r', 'u', 'e']) {
                Option::Some((JVal::Bool(true), j + 4))
            } else {
                Option::None
            }
        } else if s[j] == 'f' {
            if lit_at(s, j, seq!['f', 'a', 'l', 's', 'e']) {
                Option::Some((JVal::Bool(false), j + 5))
            } else {
                Option::None
            }
        } else if s[j] == '"' {
            match parse_str_body(s, j + 1) {
                Option::Some((body, k)) => Option::Some((JVal::Str(body), k)),
                Option::None => Option::None,
            }
        } else if s[j] == '[' {
            match parse_items_at(s, j + 1) {
                Option::Some((items, k)) => Option::Some((JVal::Arr(items), k)),
                Option::None => Option::None,
            }
        } else if s[j] == '{' {
            match parse_fields_at(s, j + 1) {
                Option::Some((fields, k)) => Option::Some((JVal::Obj(fields), k)),
                Option::None => Option::None,
            }
        } else if s[j] == '-' || dec_val(s[j]) is Some {
            match parse_int_at(s, j) {
                Option::Some((v, k)) => Option::Some((JVal::Int(v), k)),
                Option::None => Option::None,
            }
        } else {
            Option::None
        }
    }
}

/// The elements of an array from position `i` (past the opening bracket) to
/// its closing bracket, and the position after it.
pub open spec fn parse_items_at(s: Seq<char>, i: int) -> Option<(Seq<JVal>, int)>
    decreases s.len() - i, 1int,
{
    if i < 0 {
        Option::None
    } else {
        let j = skip_ws(s, i);
        if j < s.len() && s[j] == ']' {
            Option::Some((Seq::empty(), j + 1))
        } else {
            match parse_value_at(s, i) {
                Option::None => Option::None,
                Option::Some((v, k)) => if k <= i || k > s.len() {
                    Option::None
                } else {
                    let m = skip_ws(s, k);
                    if m < k || m >= s.len() {
                        Option::None
                    } else if s[m] == ']' {
                        Option::Some((seq![v], m + 1))
                    } else if s[m] == ',' {
                        let n = skip_ws(s, m + 1);
                        if n < s.len() && s[n] == ']' {
                            Option::None
                        } else {
                            match parse_items_at(s, m + 1) {
                                Option::Some((rest, e)) => Option::Some((seq![v] + rest, e)),
                                Option::None => Option::None,
                            }
                        }
                    } else {
                        Option::None
                    }
                },
            }
        }
    }
}

/// One parsed object field joined onto the fields that follow it: when the
/// key reappears later, the later binding wins.
pub open spec fn field_cons(
    key: Seq<char>,
    v: JVal,
    rest: Seq<(Seq<char>, JVal)>,
) -> Seq<(Seq<char>, JVal)> {
    if fields_lookup(rest, key) is Some {
        rest
    } else {
        seq![(key, v)] + rest
    }
}

/// The fields of an object from position `i` (past the opening brace) to its
/// closing brace, and the position after it.
pub open spec fn parse_fields_at(s: Seq<char>, i: int) -> Option<(Seq<(Seq<char>, JVal)>, int)>
    decreases s.len() - i, 1int,
{
    if i < 0 {
        Option::None
    } else {
        let j = skip_ws(s, i);
        if j < i || j >= s.len() {
            Option::None
        } else if s[j] == '}' {
            Option::Some((Seq::empty(), j + 1))
        } else if s[j] == '"' {
            match parse_str_body(s, j + 1) {
                Option::None => Option::None,
                Option::Some((key, k)) => if k <= j + 1 || k > s.len() {
                    Option::None
                } else {
                    let m = skip_ws(s, k);
                    if m < k || m >= s.len() || s[m] != ':' {
                        Option::None
                    } else {
                        match parse_value_at(s, m + 1) {
                            Option::None => Option::None,
                            Option::Some((v, e)) => if e <= i || e > s.len() {
                                Option::None
                            } else {
                                let q = skip_ws(s, e);
                                if q < e || q >= s.len() {
                                    Option::None
                                } else if s[q] == '}' {
                                    Option::Some((seq![(key, v)], q + 1))
                                } else if s[q] == ',' {
                                    let n = skip_ws(s, q + 1);
                                    if n < s.len() && s[n] == '}' {
                                        Option::None
                                    } else {
                                        match parse_fields_at(s, q + 1) {
                                            Option::Some((rest, z)) => Option::Some(
                                                (field_cons(key, v, rest), z),
                                            ),
                                            Option::None => Option::None,
                                        }
                                    }
                                } else {
                                    Option::None
                                }
                            },
                        }
                    }
                },
            }
        } else {
            Option::None
        }
    }
}

/// Powers of ten.
pub open spec fn pow10(n: int) -> int
    decreases n,
{
    if n <= 0 {
        1
    } else {
        10 * pow10(n - 1)
    }
}

/// A digit run's value is bounded by a power of ten on each side.
pub proof fn lemma_digits_value_bounds(s: Seq<char>, i: int, j: int)
    requires
        i <= j,
        forall|k: int| i <= k < j ==> 0 <= k < s.len() && (#[trigger] dec_val(s[k])) is Some,
    ensures
        0 <= digits_value(s, i, j) < pow10(j - i),
        i < j && dec_val(s[i]) != Option::Some(0int) ==> digits_value(s, i, j) >= pow10(j - i - 1),
    decreases j - i,
{
    if i < j {
        lemma_digits_value_bounds(s, i, j - 1);
    }
}

/// A complete JSON document: one value, with nothing but whitespace around
/// it.
pub open spec fn parse_doc(s: Seq<char>) -> Option<JVal> {
    match parse_value_at(s, 0) {
        Option::Some((v, k)) => if 0 <= k <= s.len() && skip_ws(s, k) == s.len() {
            Option::Some(v)
        } else {
            Option::None
        },
        Option::None => Option::None,
    }
}

/// Relies on `char::from_u32`: the character with the given scalar value.
#[verifier::external_body]
fn char_from_code(code: u32) -> (r: char)
    requires
        code < 0xD800 || (0xE000 <= code && code <= 0x10FFFF),
    ensures
        r as u32 == code,
{
    char::from_u32(code).unwrap_or(' ')
}

fn skip_ws_x(s: &Vec<char>, i: usize) -> (r: usize)
    requires
        i <= s@.len(),
    ensures
        r as int == skip_ws(s@, i as int),
        i <= r <= s@.len(),
{
    let mut p = i;
    while p < s.len() && (s[p] == ' ' || s[p] == '\t' || s[p] == '\n' || s[p] == '\r')
        invariant
            i <= p <= s@.len(),
            skip_ws(s@, i as int) == skip_ws(s@, p as int),
        decreases s@.len() - p,
    {
        p = p + 1;
    }
    p
}

fn hex_val_x(c: char) -> (r: Option<u8>)
    ensures
        match r {
            Option::Some(d) => hex_val(c) == Option::Some(d as int) && d < 16,
            Option::None => hex_val(c) is None,
        },
{
    let u = c as u32;
    if 48 <= u && u <= 57 {
        Option::Some((u - 48) as u8)
    } else if 97 <= u && u <= 102 {
        Option::Some((u - 87) as u8)
    } else if 65 <= u && u <= 70 {
        Option::Some((u - 55) as u8)
    } else {
        Option::None
    }
}

fn dec_val_x(c: char) -> (r: Option<u8>)
    ensures
        match r {
            Option::Some(d) => dec_val(c) == Option::Some(d as int) && d < 10,
            Option::None => dec_val(c) is None,
        },
{
    let u = c as u32;
    if 48 <= u && u <= 57 {
        Option::Some((u - 48) as u8)
    } else {
        Option::None
    }
}

fn parse_str_body_x(s: &Vec<char>, i: usize) -> (r: Option<(Vec<char>, usize)>)
    requires
        i <= s@.len(),
    ensures
        match r {
            Option::Some(p) => parse_str_body(s@, i as int) == Option::Some(
                (p.0@, p.1 as int),
            ) && i < p.1 <= s@.len(),
            Option::None => parse_str_body(s@, i as int) is None,
        },
    decreases s@.len() - i,
{
    if i >= s.len() {
        return Option::None;
    }
    let c = s[i];
    if c == '"' {
        let empty: Vec<char> = Vec::new();
        assert(empty@ =~= Seq::<char>::empty());
        return Option::Some((empty, i + 1));
    }
    if c == '\\' {
        if s.len() - i < 2 {
            return Option::None;
        }
        let e = s[i + 1];
        if e == 'u' {
            if s.len() - i < 6 {
                return Option::None;
            }
            let a = hex_val_x(s[i + 2]);
            let b = hex_val_x(s[i + 3]);
            let c2 = hex_val_x(s[i + 4]);
            let d = hex_val_x(s[i + 5]);
            match (a, b, c2, d) {
                (Option::Some(a), Option::Some(b), Option::Some(c2), Option::Some(d)) => {
                    let cp: u32 = 4096 * (a as u32) + 256 * (b as u32) + 16 * (c2 as u32) + (
                    d as u32);
                    if 0xD800 <= cp && cp < 0xE000 {
                        return Option::None;
                    }
                    let ch = char_from_code(cp);
                    assert(ch == (cp as int) as char);
                    match parse_str_body_x(s, i + 6) {
                        Option::Some((mut rest, k)) => {
                            rest.insert(0, ch);
                            assert(rest@ =~= seq![ch] + rest@.drop_first());
                            Option::Some((rest, k))
                        },
                        Option::None => Option::None,
                    }
                },
                _ => Option::None,
            }
        } else {
            let dec: Option<char> = if e == '"' {
                Option::Some('"')
            } else if e == '\\' {
                Option::Some('\\')
            } else if e == '/' {
                Option::Some('/')
            } else if e == 'b' {
                Option::Some('\u{8}')
            } else if e == 'f' {
                Option::Some('\u{c}')
            } else if e == 'n' {
                Option::Some('\n')
            } else if e == 'r' {
                Option::Some('\r')
            } else if e == 't' {
                Option::Some('\t')
            } else {
                Option::None
            };
            match dec {
                Option::Some(ch) => {
                    assert(esc_code(e) == Option::Some(ch));
                    match parse_str_body_x(s, i + 2) {
                        Option::Some((mut rest, k)) => {
                            rest.insert(0, ch);
                            assert(rest@ =~= seq![ch] + rest@.drop_first());
                            Option::Some((rest, k))
                        },
                        Option::None => Option::None,
                    }
                },
                Option::None => {
                    assert(esc_code(e) is None);
                    Option::None
                },
            }
        }
    } else {
        match parse_str_body_x(s, i + 1) {
            Option::Some((mut rest, k)) => {
                rest.insert(0, c);
                assert(rest@ =~= seq![c] + rest@.drop_first());
                Option::Some((rest, k))
            },
            Option::None => Option::None,
        }
    }
}

fn scan_digits_x(s: &Vec<char>, i: usize) -> (r: usize)
    requires
        i <= s@.len(),
    ensures
        r as int == scan_digits(s@, i as int),
        i <= r <= s@.len(),
{
    let mut p = i;
    while p < s.len() && is_digit_x(s[p])
        invariant
            i <= p <= s@.len(),
            scan_digits(s@, i as int) == scan_digits(s@, p as int),
        decreases s@.len() - p,
    {
        p = p + 1;
    }
    p
}

fn is_digit_x(c: char) -> (r: bool)
    ensures
        r == (dec_val(c) is Some),
{
    let u = c as u32;
    48 <= u && u <= 57
}

fn parse_int_x(s: &Vec<char>, i: usize) -> (r: Option<(i64, usize)>)
    requires
        i <= s@.len(),
    ensures
        match r {
            Option::Some(p) => parse_int_at(s@, i as int) == Option::Some(
                (p.0 as int, p.1 as int),
            ) && i <= p.1 <= s@.len(),
            Option::None => parse_int_at(s@, i as int) is None,
        },
{
    let neg = i < s.len() && s[i] == '-';
    let d0 = if neg {
        i + 1
    } else {
        i
    };
    if d0 > s.len() {
        assert(scan_digits(s@, d0 as int) == d0);
        return Option::None;
    }
    let end = scan_digits_x(s, d0);
    proof {
        lemma_scan_digits(s@, d0 as int);
    }
    if end == d0 {
        return Option::None;
    }
    if s[d0] == '0' && end > d0 + 1 {
        return Option::None;
    }
    if end < s.len() && (s[end] == '.' || s[end] == 'e' || s[end] == 'E') {
        return Option::None;
    }
    // A run past 19 digits (with no leading zero, checked above) exceeds
    // the 64-bit range.
    if end - d0 > 19 {
        proof {
            lemma_digits_value_bounds(s@, d0 as int, end as int);
            lemma_pow10_values();
            assert(pow10(end - d0 - 1) >= pow10(19)) by {
                lemma_pow10_monotone(19, end - d0 - 1);
            }
        }
        return Option::None;
    }
    let mut acc: u64 = 0;
    let mut p = d0;
    proof {
        lemma_pow10_values();
    }
    while p < end
        invariant
            d0 <= p <= end <= s@.len(),
            end - d0 <= 19,
            acc as int == digits_value(s@, d0 as int, p as int),
            forall|j: int| d0 <= j < end ==> (#[trigger] dec_val(s@[j])) is Some,
            acc < pow10(p - d0),
            pow10(19) == 10_000_000_000_000_000_000,
        decreases end - p,
    {
        let d = (s[p] as u32 - 48) as u8;
        assert(dec_val(s@[p as int]) == Option::Some(d as int));
        proof {
            lemma_pow10_monotone(p + 1 - d0, 19);
            assert(acc * 10 + d < pow10(p - d0) * 10) by {
                lemma_digits_value_bounds(s@, d0 as int, p as int);
            }
        }
        acc = acc * 10 + (d as u64);
        p = p + 1;
    }
    if neg {
        if acc > 0x8000_0000_0000_0000u64 {
            return Option::None;
        }
        let v: i64 = if acc == 0x8000_0000_0000_0000u64 {
            i64::MIN
        } else {
            -(acc as i64)
        };
        Option::Some((v, end))
    } else {
        if acc > 0x7fff_ffff_ffff_ffffu64 {
            return Option::None;
        }
        Option::Some((acc as i64, end))
    }
}

proof fn lemma_pow10_values()
    ensures
        pow10(19) == 10_000_000_000_000_000_000,
{
    reveal_with_fuel(pow10, 21);
}

proof fn lemma_pow10_monotone(a: int, b: int)
    requires
        a <= b,
    ensures
        pow10(a) <= pow10(b),
        pow10(a) >= 1,
    decreases b - a,
{
    if a < b {
        lemma_pow10_monotone(a, b - 1);
        lemma_pow10_positive(b - 1);
    } else {
        lemma_pow10_positive(a);
    }
}

proof fn lemma_pow10_positive(n: int)
    ensures
        pow10(n) >= 1,
    decreases n,
{
    if n > 0 {
        lemma_pow10_positive(n - 1);
    }
}

fn lit4_x(s: &Vec<char>, j: usize, c0: char, c1: char, c2: char, c3: char) -> (r: bool)
    requires
        j < s@.len(),
    ensures
        r == lit_at(s@, j as int, seq![c0, c1, c2, c3]),
{
    if s.len() - j < 4 {
        return false;
    }
    let hit = s[j] == c0 && s[j + 1] == c1 && s[j + 2] == c2 && s[j + 3] == c3;
    proof {
        if hit {
            assert(s@.subrange(j as int, j + 4 as int) =~= seq![c0, c1, c2, c3]);
        } else {
            assert(s@.subrange(j as int, j + 4 as int) != seq![c0, c1, c2, c3]) by {
                let lit = seq![c0, c1, c2, c3];
                let sub = s@.subrange(j as int, j + 4 as int);
                if sub == lit {
                    assert(sub[0] == c0 && sub[1] == c1 && sub[2] == c2 && sub[3] == c3);
                }
            }
        }
    }
    hit
}

fn lit5_x(s: &Vec<char>, j: usize, c0: char, c1: char, c2: char, c3: char, c4: char) -> (r: bool)
    requires
        j < s@.len(),
    ensures
        r == lit_at(s@, j as int, seq![c0, c1, c2, c3, c4]),
{
    if s.len() - j < 5 {
        return false;
    }
    let hit = s[j] == c0 && s[j + 1] == c1 && s[j + 2] == c2 && s[j + 3] == c3 && s[j + 4] == c4;
    proof {
        if hit {
            assert(s@.subrange(j as int, j + 5 as int) =~= seq![c0, c1, c2, c3, c4]);
        } else {
            assert(s@.subrange(j as int, j + 5 as int) != seq![c0, c1, c2, c3, c4]) by {
                let lit = seq![c0, c1, c2, c3, c4];
                let sub = s@.subrange(j as int, j + 5 as int);
                if sub == lit {
                    assert(sub[0] == c0 && sub[1] == c1 && sub[2] == c2 && sub[3] == c3 && sub[4]
                        == c4);
                }
            }
        }
    }
    hit
}

/// Whether `key` is already bound in `fields`.
fn fields_has_key(fields: &Vec<(String, Json)>, key: &String) -> (r: bool)
    ensures
        r == (fields_lookup(jfields_of(fields@), key@) is Some),
{
    let ghost fs = jfields_of(fields@);
    let mut i: usize = 0;
    assert(fs.subrange(0, fs.len() as int) =~= fs);
    while i < fields.len()
        invariant
            i <= fields.len(),
            fs == jfields_of(fields@),
            fields_lookup(fs.subrange(i as int, fs.len() as int), key@) == fields_lookup(fs, key@),
        decreases fields.len() - i,
    {
        let ghost rest = fs.subrange(i as int, fs.len() as int);
        if crate::text::str_eq(fields[i].0.as_str(), key.as_str()) {
            assert(fields_lookup(rest, key@) is Some);
            return true;
        }
        assert(rest.drop_first() =~= fs.subrange(i + 1 as int, fs.len() as int));
        i = i + 1;
    }
    assert(fields_lookup(fs.subrange(fs.len() as int, fs.len() as int), key@) is None);
    false
}

fn parse_value_x(s: &Vec<char>, i: usize) -> (r: Option<(Json, usize)>)
    requires
        i <= s@.len(),
    ensures
        match r {
            Option::Some(p) => parse_value_at(s@, i as int) == Option::Some((p.0@, p.1 as int))
                && p.1 <= s@.len(),
            Option::None => parse_value_at(s@, i as int) is None,
        },
    decreases s@.len() - i, 0int,
{
    let j = skip_ws_x(s, i);
    if j >= s.len() {
        return Option::None;
    }
    let c = s[j];
    if c == 'n' {
        if lit4_x(s, j, 'n', 'u', 'l', 'l') {
            Option::Some((Json::Null, j + 4))
        } else {
            Option::None
        }
    } else if c == 't' {
        if lit4_x(s, j, 't', 'r', 'u', 'e') {
            Option::Some((Json::Bool(true), j + 4))
        } else {
            Option::None
        }
    } else if c == 'f' {
        if lit5_x(s, j, 'f', 'a', 'l', 's', 'e') {
            Option::Some((Json::Bool(false), j + 5))
        } else {
            Option::None
        }
    } else if c == '"' {
        match parse_str_body_x(s, j + 1) {
            Option::Some((body, k)) => {
                let jv = Json::Str(crate::text::chars_to_string(&body));
                Option::Some((jv, k))
            },
            Option::None => Option::None,
        }
    } else if c == '[' {
        match parse_items_x(s, j + 1) {
            Option::Some((items, k)) => {
                let ghost iv = items@;
                let jv = Json::Arr(items);
                assert(jv@->Arr_0 =~= jvals_of(iv));
                assert(jv@ =~~= JVal::Arr(jvals_of(iv)));
                Option::Some((jv, k))
            },
            Option::None => Option::None,
        }
    } else if c == '{' {
        match parse_fields_x(s, j + 1) {
            Option::Some((fields, k)) => {
                let ghost fv = fields@;
                let jv = Json::Obj(fields);
                assert(jv@->Obj_0 =~= jfields_of(fv));
                assert(jv@ =~~= JVal::Obj(jfields_of(fv)));
                Option::Some((jv, k))
            },
            Option::None => Option::None,
        }
    } else if c == '-' || is_digit_x(c) {
        match parse_int_x(s, j) {
            Option::Some((v, k)) => Option::Some((Json::Int(v), k)),
            Option::None => Option::None,
        }
    } else {
        Option::None
    }
}

fn parse_items_x(s: &Vec<char>, i: usize) -> (r: Option<(Vec<Json>, usize)>)
    requires
        i <= s@.len(),
    ensures
        match r {
            Option::Some(p) => parse_items_at(s@, i as int) == Option::Some(
                (jvals_of(p.0@), p.1 as int),
            ) && p.1 <= s@.len(),
            Option::None => parse_items_at(s@, i as int) is None,
        },
    decreases s@.len() - i, 1int,
{
    let j = skip_ws_x(s, i);
    if j < s.len() && s[j] == ']' {
        let empty: Vec<Json> = Vec::new();
        assert(jvals_of(empty@) =~= Seq::empty());
        return Option::Some((empty, j + 1));
    }
    match parse_value_x(s, i) {
        Option::None => Option::None,
        Option::Some((v, k)) => {
            if k <= i {
                return Option::None;
            }
            let m = skip_ws_x(s, k);
            if m >= s.len() {
                return Option::None;
            }
            if s[m] == ']' {
                let mut items: Vec<Json> = Vec::new();
                items.push(v);
                assert(jvals_of(items@) =~= seq![v@]);
                return Option::Some((items, m + 1));
            }
            if s[m] == ',' {
                let n = skip_ws_x(s, m + 1);
                if n < s.len() && s[n] == ']' {
                    return Option::None;
                }
                match parse_items_x(s, m + 1) {
                    Option::Some((mut rest, e)) => {
                        let ghost r0 = rest@;
                        rest.insert(0, v);
                        assert(jvals_of(rest@) =~= seq![v@] + jvals_of(r0));
                        Option::Some((rest, e))
                    },
                    Option::None => Option::None,
                }
            } else {
                Option::None
            }
        },
    }
}

fn parse_fields_x(s: &Vec<char>, i: usize) -> (r: Option<(Vec<(String, Json)>, usize)>)
    requires
        i <= s@.len(),
    ensures
        match r {
            Option::Some(p) => parse_fields_at(s@, i as int) == Option::Some(
                (jfields_of(p.0@), p.1 as int),
            ) && p.1 <= s@.len(),
            Option::None => parse_fields_at(s@, i as int) is None,
        },
    decreases s@.len() - i, 1int,
{
    let j = skip_ws_x(s, i);
    if j >= s.len() {
        return Option::None;
    }
    if s[j] == '}' {
        let empty: Vec<(String, Json)> = Vec::new();
        assert(jfields_of(empty@) =~= Seq::empty());
        return Option::Some((empty, j + 1));
    }
    if s[j] != '"' {
        return Option::None;
    }
    match parse_str_body_x(s, j + 1) {
        Option::None => Option::None,
        Option::Some((keychars, k)) => {
            if k <= j + 1 {
                return Option::None;
            }
            let key = crate::text::chars_to_string(&keychars);
            let m = skip_ws_x(s, k);
            if m >= s.len() {
                return Option::None;
            }
            if s[m] != ':' {
                return Option::None;
            }
            match parse_value_x(s, m + 1) {
                Option::None => Option::None,
                Option::Some((v, e)) => {
                    if e <= i {
                        return Option::None;
                    }
                    let q = skip_ws_x(s, e);
                    if q >= s.len() {
                        return Option::None;
                    }
                    if s[q] == '}' {
                        let mut fields: Vec<(String, Json)> = Vec::new();
                        fields.push((key, v));
                        assert(jfields_of(fields@) =~= seq![(key@, v@)]);
                        return Option::Some((fields, q + 1));
                    }
                    if s[q] == ',' {
                        let n = skip_ws_x(s, q + 1);
                        if n < s.len() && s[n] == '}' {
                            return Option::None;
                        }
                        match parse_fields_x(s, q + 1) {
                            Option::Some((mut rest, z)) => {
                                if fields_has_key(&rest, &key) {
                                    assert(jfields_of(rest@) =~= field_cons(
                                        key@,
                                        v@,
                                        jfields_of(rest@),
                                    ));
                                    Option::Some((rest, z))
                                } else {
                                    let ghost kv = (key@, v@);
                                    let ghost r0 = rest@;
                                    rest.insert(0, (key, v));
                                    assert(jfields_of(rest@) =~= seq![kv] + jfields_of(r0));
                                    Option::Some((rest, z))
                                }
                            },
                            Option::None => Option::None,
                        }
                    } else {
                        Option::None
                    }
                },
            }
        },
    }
}

/// Parses a complete JSON document held as characters, as [`parse_doc`]
/// defines it.
pub fn parse_chars(cs: &Vec<char>) -> (r: Option<Json>)
    ensures
        match r {
            Option::Some(v) => parse_doc(cs@) == Option::Some(v@),
            Option::None => parse_doc(cs@) is None,
        },
{
    match parse_value_x(cs, 0) {
        Option::None => Option::None,
        Option::Some((v, k)) => {
            let e = skip_ws_x(cs, k);
            if e == cs.len() {
                Option::Some(v)
            } else {
                Option::None
            }
        },
    }
}

/// Parses a complete JSON document, as [`parse_doc`] defines it.
pub fn parse_text(s: &str) -> (r: Option<Json>)
    ensures
        match r {
            Option::Some(v) => parse_doc(s@) == Option::Some(v@),
            Option::None => parse_doc(s@) is None,
        },
{
    let cs = crate::text::str_to_chars(s);
    parse_chars(&cs)
}

} // verus!
