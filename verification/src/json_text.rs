//! Compact JSON serialization.
//!
//! [`jtext`] is the specification: the exact character sequence a JSON value
//! serializes to.  [`to_text`] produces that text.  The variable resolver
//! substitutes into this text, and receipts are persisted in it.

use vstd::prelude::*;

use crate::json::{JVal, Json};
use crate::text::chars_to_string;

verus! {

/// Lowercase hexadecimal digit for `0 <= d < 16`.
pub open spec fn hex_digit(d: int) -> char {
    if d < 10 {
        ((48 + d) as u8) as char
    } else {
        ((87 + d) as u8) as char
    }
}

/// Decimal digit for `0 <= d < 10`.
pub open spec fn dec_digit(d: int) -> char {
    ((48 + d) as u8) as char
}

/// How one character is written inside a JSON string literal: quote and
/// backslash get a backslash, control characters get their short escape or a
/// `\u00..` form, everything else stands as itself.
pub open spec fn esc_char(c: char) -> Seq<char> {
    if c == '"' {
        seq!['\\', '"']
    } else if c == '\\' {
        seq!['\\', '\\']
    } else if c == '\u{8}' {
        seq!['\\', 'b']
    } else if c == '\t' {
        seq!['\\', 't']
    } else if c == '\n' {
        seq!['\\', 'n']
    } else if c == '\u{c}' {
        seq!['\\', 'f']
    } else if c == '\r' {
        seq!['\\', 'r']
    } else if (c as u32) < 32 {
        seq!['\\', 'u', '0', '0', hex_digit(c as u32 as int / 16), hex_digit(c as u32 as int % 16)]
    } else {
        seq![c]
    }
}

/// A whole string escaped, character by character.
pub open spec fn esc_seq(s: Seq<char>) -> Seq<char>
    decreases s.len(),
{
    if s.len() == 0 {
        Seq::empty()
    } else {
        esc_char(s.first()) + esc_seq(s.drop_first())
    }
}

/// Decimal text of `n >= 0`, most significant digit first.
pub open spec fn nat_text(n: int) -> Seq<char>
    decreases n,
{
    if n <= 9 {
        seq![dec_digit(n)]
    } else {
        nat_text(n / 10).push(dec_digit(n % 10))
    }
}

/// Decimal text of an integer, with a leading minus sign when negative.
pub open spec fn int_text(n: int) -> Seq<char> {
    if n < 0 {
        seq!['-'] + nat_text(-n)
    } else {
        nat_text(n)
    }
}

/// The compact JSON text of a value: no whitespace, object fields in their
/// stored order.
pub open spec fn jtext(v: JVal) -> Seq<char>
    decreases v,
{
    match v {
        JVal::Null => seq!['n', 'u', 'l', 'l'],
        JVal::Bool(b) => if b {
            seq!['t', 'r', 'u', 'e']
        } else {
            seq!['f', 'a', 'l', 's', 'e']
        },
        JVal::Int(i) => int_text(i),
        JVal::Str(s) => seq!['"'] + esc_seq(s) + seq!['"'],
        JVal::Arr(items) => seq!['['] + jtext_items(items) + seq![']'],
        JVal::Obj(fields) => seq!['{'] + jtext_fields(fields) + seq!['}'],
    }
}

/// Array elements joined by commas.
pub open spec fn jtext_items(items: Seq<JVal>) -> Seq<char>
    decreases items,
{
    if items.len() == 0 {
        Seq::empty()
    } else {
        jtext(items.first()) + jtext_items_rest(items.drop_first())
    }
}

/// The tail of an array: each element preceded by a comma.
pub open spec fn jtext_items_rest(items: Seq<JVal>) -> Seq<char>
    decreases items,
{
    if items.len() == 0 {
        Seq::empty()
    } else {
        seq![','] + jtext(items.first()) + jtext_items_rest(items.drop_first())
    }
}

/// One object field: quoted escaped key, colon, value.
pub open spec fn jtext_field(f: (Seq<char>, JVal)) -> Seq<char>
    decreases f,
{
    seq!['"'] + esc_seq(f.0) + seq!['"', ':'] + jtext(f.1)
}

/// Object fields joined by commas.
pub open spec fn jtext_fields(fields: Seq<(Seq<char>, JVal)>) -> Seq<char>
    decreases fields,
{
    if fields.len() == 0 {
        Seq::empty()
    } else {
        jtext_field(fields.first()) + jtext_fields_rest(fields.drop_first())
    }
}

/// The tail of an object: each field preceded by a comma.
pub open spec fn jtext_fields_rest(fields: Seq<(Seq<char>, JVal)>) -> Seq<char>
    decreases fields,
{
    if fields.len() == 0 {
        Seq::empty()
    } else {
        seq![','] + jtext_field(fields.first()) + jtext_fields_rest(fields.drop_first())
    }
}

/// Writes the decimal text of `n`.
fn write_int(n: i64, out: &mut Vec<char>)
    ensures
        final(out)@ == old(out)@ + int_text(n as int),
{
    let mag: u64 = if n == i64::MIN {
        9223372036854775808u64
    } else if n < 0 {
        (-n) as u64
    } else {
        n as u64
    };
    if n < 0 {
        out.push('-');
    }
    if mag == 0 {
        out.push('0');
        assert(out@ =~= old(out)@ + int_text(n as int));
        return ;
    }
    let mut ds: Vec<char> = Vec::new();
    let mut m = mag;
    assert(nat_text(mag as int) =~= nat_text(m as int) + ds@);
    while m > 0
        invariant
            mag > 0,
            m > 0 ==> nat_text(mag as int) == nat_text(m as int) + ds@,
            m == 0 ==> nat_text(mag as int) == ds@,
        decreases m,
    {
        let ghost m0 = m as int;
        let ghost ds0 = ds@;
        let c = ((48 + (m % 10)) as u8) as char;
        assert(c == dec_digit(m0 % 10));
        ds.insert(0, c);
        m = m / 10;
        proof {
            assert(ds@ =~= seq![dec_digit(m0 % 10)] + ds0);
            if m0 <= 9 {
                assert(nat_text(m0) =~= seq![dec_digit(m0)]);
                assert(nat_text(mag as int) =~= ds@);
            } else {
                assert(nat_text(m0) == nat_text(m0 / 10).push(dec_digit(m0 % 10)));
                assert(nat_text(m0 / 10).push(dec_digit(m0 % 10)) + ds0 =~= nat_text(m0 / 10) + (
                seq![dec_digit(m0 % 10)] + ds0));
            }
        }
    }
    out.append(&mut ds);
    assert(out@ =~= old(out)@ + int_text(n as int));
}

/// Writes `s` escaped for the inside of a JSON string literal.
fn write_escaped(s: &str, out: &mut Vec<char>)
    ensures
        final(out)@ == old(out)@ + esc_seq(s@),
{
    let n = s.unicode_len();
    let mut i: usize = 0;
    assert(s@.subrange(0, n as int) =~= s@);
    while i < n
        invariant
            i <= n,
            n == s@.len(),
            out@ + esc_seq(s@.subrange(i as int, n as int)) == old(out)@ + esc_seq(s@),
        decreases n - i,
    {
        let ghost rest = s@.subrange(i as int, n as int);
        let ghost out0 = out@;
        let c = s.get_char(i);
        assert(rest.first() == c);
        if c == '"' {
            out.push('\\');
            out.push('"');
        } else if c == '\\' {
            out.push('\\');
            out.push('\\');
        } else if c == '\u{8}' {
            out.push('\\');
            out.push('b');
        } else if c == '\t' {
            out.push('\\');
            out.push('t');
        } else if c == '\n' {
            out.push('\\');
            out.push('n');
        } else if c == '\u{c}' {
            out.push('\\');
            out.push('f');
        } else if c == '\r' {
            out.push('\\');
            out.push('r');
        } else if (c as u32) < 32 {
            out.push('\\');
            out.push('u');
            out.push('0');
            out.push('0');
            let hi = ((c as u32) / 16) as u8;
            let lo = ((c as u32) % 16) as u8;
            out.push(if hi < 10 {
                (48 + hi) as char
            } else {
                (87 + hi) as char
            });
            out.push(if lo < 10 {
                (48 + lo) as char
            } else {
                (87 + lo) as char
            });
        } else {
            out.push(c);
        }
        proof {
            assert(out@ =~= out0 + esc_char(c));
            assert(rest.drop_first() =~= s@.subrange(i + 1 as int, n as int));
            assert(out0 + (esc_char(c) + esc_seq(rest.drop_first())) =~= (out0 + esc_char(c))
                + esc_seq(rest.drop_first()));
        }
        i = i + 1;
    }
    assert(esc_seq(s@.subrange(n as int, n as int)) =~= Seq::empty());
    assert(out@ =~= old(out)@ + esc_seq(s@));
}

/// Writes the compact JSON text of `v`.
#[verifier::rlimit(100)]
pub fn write_json(v: &Json, out: &mut Vec<char>)
    ensures
        final(out)@ == old(out)@ + jtext(v@),
    decreases v,
{
    match v {
        Json::Null => {
            out.push('n');
            out.push('u');
            out.push('l');
            out.push('l');
            assert(out@ =~= old(out)@ + jtext(v@));
        },
        Json::Bool(b) => {
            if *b {
                out.push('t');
                out.push('r');
                out.push('u');
                out.push('e');
            } else {
                out.push('f');
                out.push('a');
                out.push('l');
                out.push('s');
                out.push('e');
            }
            assert(out@ =~= old(out)@ + jtext(v@));
        },
        Json::Int(i) => {
            write_int(*i, out);
        },
        Json::Str(s) => {
            out.push('"');
            write_escaped(s.as_str(), out);
            out.push('"');
            assert(out@ =~= old(out)@ + jtext(v@));
        },
        Json::Arr(items) => {
            let ghost vitems = v@->Arr_0;
            out.push('[');
            let ghost base = out@;
            let mut i: usize = 0;
            while i < items.len()
                invariant
                    i <= items.len(),
                    vitems.len() == items@.len(),
                    forall|j: int| 0 <= j < items@.len() ==> (#[trigger] vitems[j]) == items@[j]@,
                    out@ + (if i == 0 {
                        jtext_items(vitems)
                    } else {
                        jtext_items_rest(vitems.subrange(i as int, vitems.len() as int))
                    }) == base + jtext_items(vitems),
                decreases items.len() - i,
            {
                let ghost out0 = out@;
                if i > 0 {
                    out.push(',');
                }
                write_json(&items[i], out);
                proof {
                    if i == 0 {
                        assert(jtext_items(vitems) == jtext(vitems.first()) + jtext_items_rest(
                            vitems.drop_first(),
                        ));
                        assert(vitems.drop_first() =~= vitems.subrange(1, vitems.len() as int));
                        assert(out@ =~= out0 + jtext(vitems[0]));
                        assert(out@ + jtext_items_rest(vitems.subrange(1, vitems.len() as int))
                            =~= base + jtext_items(vitems));
                    } else {
                        let rest = vitems.subrange(i as int, vitems.len() as int);
                        assert(rest.first() == vitems[i as int]);
                        assert(jtext_items_rest(rest) == seq![','] + jtext(rest.first())
                            + jtext_items_rest(rest.drop_first()));
                        assert(rest.drop_first() =~= vitems.subrange(
                            i + 1 as int,
                            vitems.len() as int,
                        ));
                        assert(out@ =~= out0 + seq![','] + jtext(vitems[i as int]));
                        assert(out@ + jtext_items_rest(
                            vitems.subrange(i + 1 as int, vitems.len() as int),
                        ) =~= base + jtext_items(vitems));
                    }
                }
                i = i + 1;
            }
            proof {
                if items.len() == 0 {
                    assert(jtext_items(vitems) =~= Seq::empty());
                    assert(out@ + jtext_items(vitems) =~= out@);
                } else {
                    assert(jtext_items_rest(vitems.subrange(vitems.len() as int, vitems.len() as int))
                        =~= Seq::empty());
                    assert(out@ + jtext_items_rest(
                        vitems.subrange(vitems.len() as int, vitems.len() as int),
                    ) =~= out@);
                }
            }
            out.push(']');
            assert(out@ =~= old(out)@ + jtext(v@));
        },
        Json::Obj(fields) => {
            let ghost vfields = v@->Obj_0;
            out.push('{');
            let ghost base = out@;
            let mut i: usize = 0;
            while i < fields.len()
                invariant
                    i <= fields.len(),
                    vfields.len() == fields@.len(),
                    forall|j: int| 0 <= j < fields@.len() ==> (#[trigger] vfields[j]) == (
                    fields@[j].0@,
                    fields@[j].1@,
                    ),
                    out@ + (if i == 0 {
                        jtext_fields(vfields)
                    } else {
                        jtext_fields_rest(vfields.subrange(i as int, vfields.len() as int))
                    }) == base + jtext_fields(vfields),
                decreases fields.len() - i,
            {
                let ghost out0 = out@;
                if i > 0 {
                    out.push(',');
                }
                let pair = &fields[i];
                out.push('"');
                write_escaped(pair.0.as_str(), out);
                out.push('"');
                out.push(':');
                write_json(&pair.1, out);
                proof {
                    let f = vfields[i as int];
                    assert(out@ =~= out0 + (if i == 0 {
                        Seq::empty()
                    } else {
                        seq![',']
                    }) + jtext_field(f));
                    if i == 0 {
                        assert(jtext_fields(vfields) == jtext_field(vfields.first())
                            + jtext_fields_rest(vfields.drop_first()));
                        assert(vfields.drop_first() =~= vfields.subrange(1, vfields.len() as int));
                        assert(out@ + jtext_fields_rest(vfields.subrange(1, vfields.len() as int))
                            =~= base + jtext_fields(vfields));
                    } else {
                        let rest = vfields.subrange(i as int, vfields.len() as int);
                        assert(rest.first() == f);
                        assert(jtext_fields_rest(rest) == seq![','] + jtext_field(rest.first())
                            + jtext_fields_rest(rest.drop_first()));
                        assert(rest.drop_first() =~= vfields.subrange(
                            i + 1 as int,
                            vfields.len() as int,
                        ));
                        assert(out@ + jtext_fields_rest(
                            vfields.subrange(i + 1 as int, vfields.len() as int),
                        ) =~= base + jtext_fields(vfields));
                    }
                }
                i = i + 1;
            }
            proof {
                if fields.len() == 0 {
                    assert(jtext_fields(vfields) =~= Seq::empty());
                    assert(out@ + jtext_fields(vfields) =~= out@);
                } else {
                    assert(jtext_fields_rest(
                        vfields.subrange(vfields.len() as int, vfields.len() as int),
                    ) =~= Seq::empty());
                    assert(out@ + jtext_fields_rest(
                        vfields.subrange(vfields.len() as int, vfields.len() as int),
                    ) =~= out@);
                }
            }
            out.push('}');
            assert(out@ =~= old(out)@ + jtext(v@));
        },
    }
}

/// The decimal text of an integer as a string.
pub fn int_string(n: i64) -> (r: String)
    ensures
        r@ == int_text(n as int),
{
    let mut out: Vec<char> = Vec::new();
    write_int(n, &mut out);
    assert(out@ =~= int_text(n as int));
    chars_to_string(&out)
}

/// The compact JSON text of `v` as a string.
pub fn to_text(v: &Json) -> (r: String)
    ensures
        r@ == jtext(v@),
{
    let mut out: Vec<char> = Vec::new();
    write_json(v, &mut out);
    chars_to_string(&out)
}

} // verus!
