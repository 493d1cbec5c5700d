//! The response-envelope codec: a canonical JSON writer and strict reader
//! for `ScraperResult`, verified to round-trip — deserializing a
//! serialized envelope gives back the same field order and the exact
//! string values.
//!
//! The writer emits one canonical shape (fixed key order, no extra
//! whitespace, `\u00XX` escapes only for control characters); the reader
//! accepts exactly that shape.  The wire JSON the HTTP layer speaks is
//! produced by serde in the application shell; this codec is the
//! library's own framing, and the round-trip law below is proved of it.

use vstd::prelude::*;
use vstd::string::StringExecFns;
use vstd::string::StrSliceExecFns;
use crate::numfmt::{digit_char, dec_chars, fmt_u16};
use crate::schema::{ScrapeResults, ScrapeResultsView, ScraperResult, ScraperResultView};

verus! {

/// Lowercase hex digit character.
pub open spec fn hex_lower_char(d: nat) -> char {
    if d < 10 {
        digit_char(d)
    } else if d == 10 {
        'a'
    } else if d == 11 {
        'b'
    } else if d == 12 {
        'c'
    } else if d == 13 {
        'd'
    } else if d == 14 {
        'e'
    } else {
        'f'
    }
}

/// Value of a lowercase hex digit character.
pub open spec fn hex_char_val(c: char) -> Option<nat> {
    if c == '0' {
        Some(0 as nat)
    } else if c == '1' {
        Some(1 as nat)
    } else if c == '2' {
        Some(2 as nat)
    } else if c == '3' {
        Some(3 as nat)
    } else if c == '4' {
        Some(4 as nat)
    } else if c == '5' {
        Some(5 as nat)
    } else if c == '6' {
        Some(6 as nat)
    } else if c == '7' {
        Some(7 as nat)
    } else if c == '8' {
        Some(8 as nat)
    } else if c == '9' {
        Some(9 as nat)
    } else if c == 'a' {
        Some(10 as nat)
    } else if c == 'b' {
        Some(11 as nat)
    } else if c == 'c' {
        Some(12 as nat)
    } else if c == 'd' {
        Some(13 as nat)
    } else if c == 'e' {
        Some(14 as nat)
    } else if c == 'f' {
        Some(15 as nat)
    } else {
        None
    }
}

proof fn lemma_hex_inverse(d: nat)
    requires
        d < 16,
    ensures
        hex_char_val(hex_lower_char(d)) == Some(d),
{
}

/// The escape of one character in a JSON string.
pub open spec fn esc_char(c: char) -> Seq<char> {
    if c == '"' {
        seq!['\\', '"']
    } else if c == '\\' {
        seq!['\\', '\\']
    } else if c == '\n' {
        seq!['\\', 'n']
    } else if c == '\r' {
        seq!['\\', 'r']
    } else if c == '\t' {
        seq!['\\', 't']
    } else if (c as u32) < 0x20 {
        seq!['\\', 'u', '0', '0', hex_lower_char(((c as u32) / 16) as nat), hex_lower_char(
            ((c as u32) % 16) as nat,
        )]
    } else {
        seq![c]
    }
}

/// The escaped body of a JSON string.
pub open spec fn esc_str(t: Seq<char>) -> Seq<char>
    decreases t.len(),
{
    if t.len() == 0 {
        Seq::empty()
    } else {
        esc_char(t[0]) + esc_str(t.drop_first())
    }
}

/// A JSON string: quote, escaped body, quote.
pub open spec fn ser_string(t: Seq<char>) -> Seq<char> {
    seq!['"'] + esc_str(t) + seq!['"']
}

/// Reads the body of a JSON string after its opening quote; `acc` holds
/// the characters already read.  Returns the string and the leftover
/// input.  Raw control characters and unknown escapes are refused.
pub open spec fn parse_string_body(s: Seq<char>, acc: Seq<char>) -> Option<(Seq<char>, Seq<char>)>
    decreases s.len(),
{
    if s.len() == 0 {
        None
    } else if s[0] == '"' {
        Some((acc, s.drop_first()))
    } else if s[0] == '\\' {
        if s.len() < 2 {
            None
        } else if s[1] == '"' {
            parse_string_body(s.skip(2), acc.push('"'))
        } else if s[1] == '\\' {
            parse_string_body(s.skip(2), acc.push('\\'))
        } else if s[1] == 'n' {
            parse_string_body(s.skip(2), acc.push('\n'))
        } else if s[1] == 'r' {
            parse_string_body(s.skip(2), acc.push('\r'))
        } else if s[1] == 't' {
            parse_string_body(s.skip(2), acc.push('\t'))
        } else if s[1] == 'u' {
            if s.len() < 6 {
                None
            } else if s[2] == '0' && s[3] == '0' && hex_char_val(s[4]) is Some && hex_char_val(
                s[5],
            ) is Some && hex_char_val(s[4])->0 * 16 + hex_char_val(s[5])->0 < 0x20 {
                parse_string_body(
                    s.skip(6),
                    acc.push(((hex_char_val(s[4])->0 * 16 + hex_char_val(s[5])->0) as u32) as char),
                )
            } else {
                None
            }
        } else {
            None
        }
    } else if (s[0] as u32) < 0x20 {
        None
    } else {
        parse_string_body(s.drop_first(), acc.push(s[0]))
    }
}

/// Reads a JSON string: opening quote, body, closing quote.
pub open spec fn parse_string(s: Seq<char>) -> Option<(Seq<char>, Seq<char>)> {
    if s.len() > 0 && s[0] == '"' {
        parse_string_body(s.drop_first(), Seq::empty())
    } else {
        None
    }
}

/// The body round trip: reading an escaped body followed by a closing
/// quote yields exactly the original characters.
proof fn lemma_parse_esc(t: Seq<char>, acc: Seq<char>, rest: Seq<char>)
    ensures
        parse_string_body(esc_str(t) + seq!['"'] + rest, acc) == Some((acc + t, rest)),
    decreases t.len(),
{
    let buf = esc_str(t) + seq!['"'] + rest;
    if t.len() == 0 {
        assert(buf =~= seq!['"'] + rest);
        assert(buf.drop_first() =~= rest);
        assert(acc + t =~= acc);
    } else {
        let c = t[0];
        let t1 = t.drop_first();
        let e = esc_char(c);
        assert(esc_str(t) == e + esc_str(t1));
        assert(buf =~= e + (esc_str(t1) + seq!['"'] + rest));
        let tail = esc_str(t1) + seq!['"'] + rest;
        lemma_parse_esc(t1, acc.push(c), rest);
        assert(acc.push(c) + t1 =~= acc + t);
        if c == '"' || c == '\\' || c == '\n' || c == '\r' || c == '\t' {
            assert(buf[0] == '\\');
            assert(buf.len() >= 2);
            assert(buf.skip(2) =~= tail);
        } else if (c as u32) < 0x20 {
            assert(buf[0] == '\\' && buf[1] == 'u' && buf[2] == '0' && buf[3] == '0');
            assert(buf.len() >= 6);
            let v = c as u32;
            lemma_hex_inverse((v / 16) as nat);
            lemma_hex_inverse((v % 16) as nat);
            assert(buf[4] == hex_lower_char((v / 16) as nat));
            assert(buf[5] == hex_lower_char((v % 16) as nat));
            let n = hex_char_val(buf[4])->0 * 16 + hex_char_val(buf[5])->0;
            assert(n == v as nat);
            assert((n as u32) == v);
            vstd::utf8::char_u32_cast(c, v);
            assert(((n as u32) as char) == c);
            assert(buf.skip(6) =~= tail);
        } else {
            assert(e =~= seq![c]);
            assert(buf[0] == c);
            assert(buf[0] != '"' && buf[0] != '\\' && (buf[0] as u32) >= 0x20);
            assert(buf.drop_first() =~= tail);
        }
    }
}

/// The string round trip: reading a serialized string gives it back with
/// the leftover untouched.
proof fn lemma_parse_string(t: Seq<char>, rest: Seq<char>)
    ensures
        parse_string(ser_string(t) + rest) == Some((t, rest)),
{
    let buf = ser_string(t) + rest;
    assert(buf[0] == '"');
    assert(buf.drop_first() =~= esc_str(t) + seq!['"'] + rest);
    lemma_parse_esc(t, Seq::empty(), rest);
    assert(Seq::<char>::empty() + t =~= t);
}

/// Reading a string leaves strictly less input.
proof fn lemma_parse_string_body_shrinks(s: Seq<char>, acc: Seq<char>)
    ensures
        parse_string_body(s, acc) matches Some((t, rest)) ==> rest.len() < s.len(),
    decreases s.len(),
{
    if s.len() == 0 {
    } else if s[0] == '"' {
    } else if s[0] == '\\' {
        if s.len() < 2 {
        } else if s[1] == '"' {
            lemma_parse_string_body_shrinks(s.skip(2), acc.push('"'));
        } else if s[1] == '\\' {
            lemma_parse_string_body_shrinks(s.skip(2), acc.push('\\'));
        } else if s[1] == 'n' {
            lemma_parse_string_body_shrinks(s.skip(2), acc.push('\n'));
        } else if s[1] == 'r' {
            lemma_parse_string_body_shrinks(s.skip(2), acc.push('\r'));
        } else if s[1] == 't' {
            lemma_parse_string_body_shrinks(s.skip(2), acc.push('\t'));
        } else if s[1] == 'u' {
            if s.len() >= 6 && s[2] == '0' && s[3] == '0' && hex_char_val(s[4]) is Some
                && hex_char_val(s[5]) is Some && hex_char_val(s[4])->0 * 16 + hex_char_val(
                s[5],
            )->0 < 0x20 {
                lemma_parse_string_body_shrinks(
                    s.skip(6),
                    acc.push(
                        ((hex_char_val(s[4])->0 * 16 + hex_char_val(s[5])->0) as u32) as char,
                    ),
                );
            }
        }
    } else if (s[0] as u32) < 0x20 {
    } else {
        lemma_parse_string_body_shrinks(s.drop_first(), acc.push(s[0]));
    }
}

/// Reading a string leaves strictly less input.
proof fn lemma_parse_string_shrinks(s: Seq<char>)
    ensures
        parse_string(s) matches Some((t, rest)) ==> rest.len() < s.len(),
{
    if s.len() > 0 && s[0] == '"' {
        lemma_parse_string_body_shrinks(s.drop_first(), Seq::empty());
    }
}

/// Value of a decimal digit character.
pub open spec fn digit_val(c: char) -> Option<nat> {
    match hex_char_val(c) {
        Some(d) => if d < 10 {
            Some(d)
        } else {
            None
        },
        None => None,
    }
}

proof fn lemma_digit_inverse(d: nat)
    requires
        d < 10,
    ensures
        digit_val(digit_char(d)) == Some(d),
{
}

/// Greedily reads decimal digits, folding them onto `acc`.
pub open spec fn parse_digits(s: Seq<char>, acc: nat) -> (nat, Seq<char>)
    decreases s.len(),
{
    if s.len() > 0 && digit_val(s[0]) is Some {
        parse_digits(s.drop_first(), acc * 10 + digit_val(s[0])->0)
    } else {
        (acc, s)
    }
}

/// Reads a decimal number: at least one digit.
pub open spec fn parse_number(s: Seq<char>) -> Option<(nat, Seq<char>)> {
    if s.len() > 0 && digit_val(s[0]) is Some {
        Some(parse_digits(s, 0))
    } else {
        None
    }
}

/// Powers of ten.
pub open spec fn pow10(k: nat) -> nat
    decreases k,
{
    if k == 0 {
        1
    } else {
        10 * pow10((k - 1) as nat)
    }
}

/// The digit fold never shrinks the accumulator.
proof fn lemma_parse_digits_ge(s: Seq<char>, acc: nat)
    ensures
        parse_digits(s, acc).0 >= acc,
    decreases s.len(),
{
    if s.len() > 0 && digit_val(s[0]) is Some {
        lemma_parse_digits_ge(s.drop_first(), acc * 10 + digit_val(s[0])->0);
    }
}

proof fn lemma_parse_dec_digits(n: nat, acc: nat, rest: Seq<char>)
    ensures
        parse_digits(dec_chars(n) + rest, acc) == parse_digits(
            rest,
            acc * pow10(dec_chars(n).len()) + n,
        ),
    decreases n,
{
    let buf = dec_chars(n) + rest;
    if n < 10 {
        lemma_digit_inverse(n);
        assert(buf[0] == digit_char(n));
        assert(buf.drop_first() =~= rest);
        assert(dec_chars(n).len() == 1);
        assert(pow10(0) == 1);
        assert(pow10(1) == 10);
    } else {
        let m = n / 10;
        let d = n % 10;
        assert(dec_chars(n) == dec_chars(m as nat) + seq![digit_char(d as nat)]);
        assert(buf =~= dec_chars(m as nat) + (seq![digit_char(d as nat)] + rest));
        lemma_parse_dec_digits(m as nat, acc, seq![digit_char(d as nat)] + rest);
        let k = dec_chars(m as nat).len();
        let acc2 = acc * pow10(k) + m;
        lemma_digit_inverse(d as nat);
        assert((seq![digit_char(d as nat)] + rest)[0] == digit_char(d as nat));
        assert((seq![digit_char(d as nat)] + rest).drop_first() =~= rest);
        assert(parse_digits(seq![digit_char(d as nat)] + rest, acc2) == parse_digits(
            rest,
            acc2 * 10 + d,
        ));
        assert(acc2 * 10 + d == acc * pow10(k + 1) + n) by {
            assert(pow10(k + 1) == 10 * pow10(k));
            assert(acc2 * 10 == acc * pow10(k) * 10 + m * 10) by (nonlinear_arith)
                requires
                    acc2 == acc * pow10(k) + m,
            ;
            assert(acc * pow10(k) * 10 == acc * (10 * pow10(k))) by (nonlinear_arith);
            assert(m * 10 + d == n);
        }
        assert(dec_chars(n).len() == k + 1);
    }
}

/// The number round trip: reading serialized digits followed by a
/// non-digit gives the number back.
proof fn lemma_parse_number(n: nat, rest: Seq<char>)
    requires
        rest.len() == 0 || digit_val(rest[0]) is None,
    ensures
        parse_number(dec_chars(n) + rest) == Some((n, rest)),
{
    let buf = dec_chars(n) + rest;
    lemma_dec_first_digit(n);
    assert(buf[0] == dec_chars(n)[0]);
    lemma_parse_dec_digits(n, 0, rest);
    assert(0 * pow10(dec_chars(n).len()) + n == n) by (nonlinear_arith);
    assert(parse_digits(rest, n) == (n, rest));
}

proof fn lemma_dec_first_digit(n: nat)
    ensures
        digit_val(dec_chars(n)[0]) is Some,
    decreases n,
{
    if n < 10 {
        lemma_digit_inverse(n);
    } else {
        lemma_dec_first_digit((n / 10) as nat);
        assert(dec_chars(n)[0] == dec_chars((n / 10) as nat)[0]);
    }
}

/// Expects the exact literal `lit` at the head of the input.
pub open spec fn parse_lit(s: Seq<char>, lit: Seq<char>) -> Option<Seq<char>> {
    if lit.len() <= s.len() && s.subrange(0, lit.len() as int) == lit {
        Some(s.skip(lit.len() as int))
    } else {
        None
    }
}

proof fn lemma_parse_lit(lit: Seq<char>, rest: Seq<char>)
    ensures
        parse_lit(lit + rest, lit) == Some(rest),
{
    let buf = lit + rest;
    assert(buf.subrange(0, lit.len() as int) =~= lit);
    assert(buf.skip(lit.len() as int) =~= rest);
}

/// The `,`-separated items after an array's first element.
pub open spec fn ser_arr_tail(a: Seq<Seq<char>>) -> Seq<char>
    decreases a.len(),
{
    if a.len() == 0 {
        Seq::empty()
    } else {
        seq![','] + ser_string(a[0]) + ser_arr_tail(a.drop_first())
    }
}

/// A JSON array of strings.
pub open spec fn ser_arr(a: Seq<Seq<char>>) -> Seq<char> {
    seq!['['] + (if a.len() == 0 {
        Seq::empty()
    } else {
        ser_string(a[0]) + ser_arr_tail(a.drop_first())
    }) + seq![']']
}

#[via_fn]
proof fn parse_arr_tail_decreases(s: Seq<char>, acc: Seq<Seq<char>>) {
    if s.len() > 0 && s[0] == ',' {
        lemma_parse_string_shrinks(s.drop_first());
    }
}

/// Reads an array's remaining `,`-separated items up to the closing `]`.
pub open spec fn parse_arr_tail(s: Seq<char>, acc: Seq<Seq<char>>) -> Option<(
    Seq<Seq<char>>,
    Seq<char>,
)>
    decreases s.len(),
    via parse_arr_tail_decreases
{
    if s.len() == 0 {
        None
    } else if s[0] == ']' {
        Some((acc, s.drop_first()))
    } else if s[0] == ',' {
        match parse_string(s.drop_first()) {
            Some((t, rest)) => parse_arr_tail(rest, acc.push(t)),
            None => None,
        }
    } else {
        None
    }
}

/// Reads a JSON array of strings.
pub open spec fn parse_arr(s: Seq<char>) -> Option<(Seq<Seq<char>>, Seq<char>)> {
    if s.len() >= 2 && s[0] == '[' && s[1] == ']' {
        Some((Seq::empty(), s.skip(2)))
    } else if s.len() >= 1 && s[0] == '[' {
        match parse_string(s.drop_first()) {
            Some((t, rest)) => parse_arr_tail(rest, seq![t]),
            None => None,
        }
    } else {
        None
    }
}

proof fn lemma_parse_arr_tail(a: Seq<Seq<char>>, acc: Seq<Seq<char>>, rest: Seq<char>)
    ensures
        parse_arr_tail(ser_arr_tail(a) + seq![']'] + rest, acc) == Some((acc + a, rest)),
    decreases a.len(),
{
    let buf = ser_arr_tail(a) + seq![']'] + rest;
    if a.len() == 0 {
        assert(buf =~= seq![']'] + rest);
        assert(buf[0] == ']');
        assert(buf.drop_first() =~= rest);
        assert(acc + a =~= acc);
    } else {
        let t = a[0];
        let a1 = a.drop_first();
        assert(ser_arr_tail(a) == seq![','] + ser_string(t) + ser_arr_tail(a1));
        assert(buf[0] == ',');
        assert(buf.drop_first() =~= ser_string(t) + (ser_arr_tail(a1) + seq![']'] + rest));
        lemma_parse_string(t, ser_arr_tail(a1) + seq![']'] + rest);
        lemma_parse_arr_tail(a1, acc.push(t), rest);
        assert(acc.push(t) + a1 =~= acc + a);
    }
}

/// The array round trip.
proof fn lemma_parse_arr(a: Seq<Seq<char>>, rest: Seq<char>)
    ensures
        parse_arr(ser_arr(a) + rest) == Some((a, rest)),
{
    let buf = ser_arr(a) + rest;
    assert(buf[0] == '[');
    if a.len() == 0 {
        assert(buf =~= seq!['[', ']'] + rest);
        assert(buf[1] == ']');
        assert(buf.skip(2) =~= rest);
    } else {
        assert(buf.drop_first() =~= ser_string(a[0]) + (ser_arr_tail(a.drop_first()) + seq![']']
            + rest));
        assert(buf[1] == ser_string(a[0])[0]);
        assert(buf[1] == '"');
        lemma_parse_string(a[0], ser_arr_tail(a.drop_first()) + seq![']'] + rest);
        lemma_parse_arr_tail(a.drop_first(), seq![a[0]], rest);
        assert(seq![a[0]] + a.drop_first() =~= a);
    }
}

/// Reading an array leaves strictly less input.
proof fn lemma_parse_arr_tail_shrinks(s: Seq<char>, acc: Seq<Seq<char>>)
    ensures
        parse_arr_tail(s, acc) matches Some((a, rest)) ==> rest.len() < s.len(),
    decreases s.len(),
{
    if s.len() > 0 && s[0] == ',' {
        lemma_parse_string_shrinks(s.drop_first());
        match parse_string(s.drop_first()) {
            Some((t, rest)) => {
                lemma_parse_arr_tail_shrinks(rest, acc.push(t));
            },
            None => {
            },
        }
    }
}

/// Reading an array leaves strictly less input.
proof fn lemma_parse_arr_shrinks(s: Seq<char>)
    ensures
        parse_arr(s) matches Some((a, rest)) ==> rest.len() < s.len(),
{
    if s.len() >= 2 && s[0] == '[' && s[1] == ']' {
    } else if s.len() >= 1 && s[0] == '[' {
        lemma_parse_string_shrinks(s.drop_first());
        match parse_string(s.drop_first()) {
            Some((t, rest)) => {
                lemma_parse_arr_tail_shrinks(rest, seq![t]);
            },
            None => {
            },
        }
    }
}

/// One contents entry: key, colon, value array.
pub open spec fn ser_pair(name: Seq<char>, vals: Seq<Seq<char>>) -> Seq<char> {
    ser_string(name) + seq![':'] + ser_arr(vals)
}

/// The `,`-separated entries after a contents object's first entry.
pub open spec fn ser_contents_tail(m: Seq<(Seq<char>, Seq<Seq<char>>)>) -> Seq<char>
    decreases m.len(),
{
    if m.len() == 0 {
        Seq::empty()
    } else {
        seq![','] + ser_pair(m[0].0, m[0].1) + ser_contents_tail(m.drop_first())
    }
}

/// The contents mapping as a JSON object, entries in stored order.
pub open spec fn ser_contents(m: Seq<(Seq<char>, Seq<Seq<char>>)>) -> Seq<char> {
    seq!['{'] + (if m.len() == 0 {
        Seq::empty()
    } else {
        ser_pair(m[0].0, m[0].1) + ser_contents_tail(m.drop_first())
    }) + seq!['}']
}

/// Reads one contents entry.
pub open spec fn parse_pair(s: Seq<char>) -> Option<((Seq<char>, Seq<Seq<char>>), Seq<char>)> {
    match parse_string(s) {
        Some((name, r1)) => if r1.len() > 0 && r1[0] == ':' {
            match parse_arr(r1.drop_first()) {
                Some((vals, r2)) => Some(((name, vals), r2)),
                None => None,
            }
        } else {
            None
        },
        None => None,
    }
}

proof fn lemma_parse_pair_shrinks(s: Seq<char>)
    ensures
        parse_pair(s) matches Some((p, rest)) ==> rest.len() < s.len(),
{
    lemma_parse_string_shrinks(s);
    match parse_string(s) {
        Some((name, r1)) => {
            if r1.len() > 0 && r1[0] == ':' {
                lemma_parse_arr_shrinks(r1.drop_first());
            }
        },
        None => {
        },
    }
}

#[via_fn]
proof fn parse_contents_tail_decreases(s: Seq<char>, acc: Seq<(Seq<char>, Seq<Seq<char>>)>) {
    if s.len() > 0 && s[0] == ',' {
        lemma_parse_pair_shrinks(s.drop_first());
    }
}

/// Reads a contents object's remaining entries up to the closing `}`.
pub open spec fn parse_contents_tail(s: Seq<char>, acc: Seq<(Seq<char>, Seq<Seq<char>>)>)
    -> Option<(Seq<(Seq<char>, Seq<Seq<char>>)>, Seq<char>)>
    decreases s.len(),
    via parse_contents_tail_decreases
{
    if s.len() == 0 {
        None
    } else if s[0] == '}' {
        Some((acc, s.drop_first()))
    } else if s[0] == ',' {
        match parse_pair(s.drop_first()) {
            Some((p, rest)) => parse_contents_tail(rest, acc.push(p)),
            None => None,
        }
    } else {
        None
    }
}

/// Reads a contents object.
pub open spec fn parse_contents(s: Seq<char>) -> Option<(
    Seq<(Seq<char>, Seq<Seq<char>>)>,
    Seq<char>,
)> {
    if s.len() >= 2 && s[0] == '{' && s[1] == '}' {
        Some((Seq::empty(), s.skip(2)))
    } else if s.len() >= 1 && s[0] == '{' {
        match parse_pair(s.drop_first()) {
            Some((p, rest)) => parse_contents_tail(rest, seq![p]),
            None => None,
        }
    } else {
        None
    }
}

proof fn lemma_parse_pair(name: Seq<char>, vals: Seq<Seq<char>>, rest: Seq<char>)
    ensures
        parse_pair(ser_pair(name, vals) + rest) == Some(((name, vals), rest)),
{
    let buf = ser_pair(name, vals) + rest;
    assert(buf =~= ser_string(name) + (seq![':'] + ser_arr(vals) + rest));
    lemma_parse_string(name, seq![':'] + ser_arr(vals) + rest);
    let r1 = seq![':'] + ser_arr(vals) + rest;
    assert(r1[0] == ':');
    assert(r1.drop_first() =~= ser_arr(vals) + rest);
    lemma_parse_arr(vals, rest);
}

proof fn lemma_parse_contents_tail(
    m: Seq<(Seq<char>, Seq<Seq<char>>)>,
    acc: Seq<(Seq<char>, Seq<Seq<char>>)>,
    rest: Seq<char>,
)
    ensures
        parse_contents_tail(ser_contents_tail(m) + seq!['}'] + rest, acc) == Some((acc + m, rest)),
    decreases m.len(),
{
    let buf = ser_contents_tail(m) + seq!['}'] + rest;
    if m.len() == 0 {
        assert(buf =~= seq!['}'] + rest);
        assert(buf[0] == '}');
        assert(buf.drop_first() =~= rest);
        assert(acc + m =~= acc);
    } else {
        let p = m[0];
        let m1 = m.drop_first();
        assert(ser_contents_tail(m) == seq![','] + ser_pair(p.0, p.1) + ser_contents_tail(m1));
        assert(buf[0] == ',');
        assert(buf.drop_first() =~= ser_pair(p.0, p.1) + (ser_contents_tail(m1) + seq!['}']
            + rest));
        lemma_parse_pair(p.0, p.1, ser_contents_tail(m1) + seq!['}'] + rest);
        lemma_parse_contents_tail(m1, acc.push((p.0, p.1)), rest);
        assert(acc.push((p.0, p.1)) + m1 =~= acc + m);
    }
}

/// The contents round trip: entry order and values come back exactly.
proof fn lemma_parse_contents(m: Seq<(Seq<char>, Seq<Seq<char>>)>, rest: Seq<char>)
    ensures
        parse_contents(ser_contents(m) + rest) == Some((m, rest)),
{
    let buf = ser_contents(m) + rest;
    assert(buf[0] == '{');
    if m.len() == 0 {
        assert(buf =~= seq!['{', '}'] + rest);
        assert(buf[1] == '}');
        assert(buf.skip(2) =~= rest);
    } else {
        assert(buf.drop_first() =~= ser_pair(m[0].0, m[0].1) + (ser_contents_tail(m.drop_first())
            + seq!['}'] + rest));
        assert(buf[1] == ser_pair(m[0].0, m[0].1)[0]);
        assert(buf[1] == '"');
        lemma_parse_pair(m[0].0, m[0].1, ser_contents_tail(m.drop_first()) + seq!['}'] + rest);
        lemma_parse_contents_tail(m.drop_first(), seq![(m[0].0, m[0].1)], rest);
        assert(seq![(m[0].0, m[0].1)] + m.drop_first() =~= m);
        assert((m[0].0, m[0].1) == m[0]);
    }
}

/// An optional string: `null` or a JSON string.
pub open spec fn ser_opt(o: Option<Seq<char>>) -> Seq<char> {
    match o {
        None => seq!['n', 'u', 'l', 'l'],
        Some(t) => ser_string(t),
    }
}

/// Reads `null` or a JSON string.
pub open spec fn parse_opt(s: Seq<char>) -> Option<(Option<Seq<char>>, Seq<char>)> {
    if s.len() >= 4 && s.subrange(0, 4) == seq!['n', 'u', 'l', 'l'] {
        Some((None, s.skip(4)))
    } else {
        match parse_string(s) {
            Some((t, r)) => Some((Some(t), r)),
            None => None,
        }
    }
}

proof fn lemma_parse_opt(o: Option<Seq<char>>, rest: Seq<char>)
    ensures
        parse_opt(ser_opt(o) + rest) == Some((o, rest)),
{
    let buf = ser_opt(o) + rest;
    match o {
        None => {
            assert(buf.subrange(0, 4) =~= seq!['n', 'u', 'l', 'l']);
            assert(buf.skip(4) =~= rest);
        },
        Some(t) => {
            assert(buf[0] == '"');
            assert(!(buf.len() >= 4 && buf.subrange(0, 4) == seq!['n', 'u', 'l', 'l'])) by {
                if buf.len() >= 4 && buf.subrange(0, 4) == seq!['n', 'u', 'l', 'l'] {
                    assert(buf.subrange(0, 4)[0] == 'n');
                }
            }
            lemma_parse_string(t, rest);
        },
    }
}

/// A scrape result as a JSON object with a fixed key order.
pub open spec fn ser_results(v: ScrapeResultsView) -> Seq<char> {
    "{\"url\":"@ + ser_string(v.url) + ",\"title\":"@ + ser_opt(v.title) + ",\"contents\":"@
        + ser_contents(v.contents) + ",\"lang\":"@ + ser_opt(v.lang) + ",\"favicon\":"@ + ser_opt(
        v.favicon,
    ) + ",\"links\":"@ + ser_arr(v.links) + ",\"document\":"@ + ser_string(v.document)
        + ",\"text\":"@ + ser_string(v.text) + seq!['}']
}

/// Reads the first half of a scrape result object: url, title and
/// contents.
pub open spec fn parse_results_head(s: Seq<char>) -> Option<(
    (Seq<char>, Option<Seq<char>>, Seq<(Seq<char>, Seq<Seq<char>>)>),
    Seq<char>,
)> {
    match parse_lit(s, "{\"url\":"@) {
        None => None,
        Some(s1) => match parse_string(s1) {
            None => None,
            Some((url, s2)) => match parse_lit(s2, ",\"title\":"@) {
                None => None,
                Some(s3) => match parse_opt(s3) {
                    None => None,
                    Some((title, s4)) => match parse_lit(s4, ",\"contents\":"@) {
                        None => None,
                        Some(s5) => match parse_contents(s5) {
                            None => None,
                            Some((contents, s6)) => Some(((url, title, contents), s6)),
                        },
                    },
                },
            },
        },
    }
}

/// Reads a scrape result object, keys in the fixed order.
pub open spec fn parse_results(s: Seq<char>) -> Option<(ScrapeResultsView, Seq<char>)> {
    match parse_results_head(s) {
        None => None,
        Some(((url, title, contents), s6)) => match parse_lit(s6, ",\"lang\":"@) {
            None => None,
            Some(s7) => match parse_opt(s7) {
                None => None,
                Some((lang, s8)) => match parse_lit(s8, ",\"favicon\":"@) {
                    None => None,
                    Some(s9) => match parse_opt(s9) {
                        None => None,
                        Some((favicon, s10)) => match parse_lit(s10, ",\"links\":"@) {
                            None => None,
                            Some(s11) => match parse_arr(s11) {
                                None => None,
                                Some((links, s12)) => match parse_lit(s12, ",\"document\":"@) {
                                    None => None,
                                    Some(s13) => match parse_string(s13) {
                                        None => None,
                                        Some((document, s14)) => match parse_lit(
                                            s14,
                                            ",\"text\":"@,
                                        ) {
                                            None => None,
                                            Some(s15) => match parse_string(s15) {
                                                None => None,
                                                Some((text, s16)) => if s16.len() > 0 && s16[0]
                                                    == '}' {
                                                    Some(
                                                        (
                                                            ScrapeResultsView {
                                                                url,
                                                                title,
                                                                contents,
                                                                lang,
                                                                favicon,
                                                                links,
                                                                document,
                                                                text,
                                                            },
                                                            s16.drop_first(),
                                                        ),
                                                    )
                                                } else {
                                                    None
                                                },
                                            },
                                        },
                                    },
                                },
                            },
                        },
                    },
                },
            },
        },
    }
}

/// The first-half round trip.
#[verifier::rlimit(100)]
#[verifier::spinoff_prover]
proof fn lemma_parse_results_head(v: ScrapeResultsView, rest6: Seq<char>)
    ensures
        parse_results_head(
            "{\"url\":"@ + ser_string(v.url) + ",\"title\":"@ + ser_opt(v.title)
                + ",\"contents\":"@ + ser_contents(v.contents) + rest6,
        ) == Some(((v.url, v.title, v.contents), rest6)),
{
    let r5 = ser_contents(v.contents) + rest6;
    let r4 = ",\"contents\":"@ + r5;
    let r3 = ser_opt(v.title) + r4;
    let r2 = ",\"title\":"@ + r3;
    let r1 = ser_string(v.url) + r2;
    let buf = "{\"url\":"@ + ser_string(v.url) + ",\"title\":"@ + ser_opt(v.title)
        + ",\"contents\":"@ + ser_contents(v.contents) + rest6;
    assert(buf =~= "{\"url\":"@ + r1);
    lemma_parse_lit("{\"url\":"@, r1);
    assert(parse_lit(buf, "{\"url\":"@) == Some(r1));
    lemma_parse_string(v.url, r2);
    assert(parse_string(r1) == Some((v.url, r2)));
    lemma_parse_lit(",\"title\":"@, r3);
    assert(parse_lit(r2, ",\"title\":"@) == Some(r3));
    lemma_parse_opt(v.title, r4);
    assert(parse_opt(r3) == Some((v.title, r4)));
    lemma_parse_lit(",\"contents\":"@, r5);
    assert(parse_lit(r4, ",\"contents\":"@) == Some(r5));
    lemma_parse_contents(v.contents, rest6);
    assert(parse_contents(r5) == Some((v.contents, rest6)));
}

/// The results round trip.
#[verifier::rlimit(100)]
#[verifier::spinoff_prover]
proof fn lemma_parse_results(v: ScrapeResultsView, rest: Seq<char>)
    ensures
        parse_results(ser_results(v) + rest) == Some((v, rest)),
{
    let buf = ser_results(v) + rest;
    let r16: Seq<char> = seq!['}'] + rest;
    let r15 = ser_string(v.text) + r16;
    let r14 = ",\"text\":"@ + r15;
    let r13 = ser_string(v.document) + r14;
    let r12 = ",\"document\":"@ + r13;
    let r11 = ser_arr(v.links) + r12;
    let r10 = ",\"links\":"@ + r11;
    let r9 = ser_opt(v.favicon) + r10;
    let r8 = ",\"favicon\":"@ + r9;
    let r7 = ser_opt(v.lang) + r8;
    let r6 = ",\"lang\":"@ + r7;
    assert(buf =~= "{\"url\":"@ + ser_string(v.url) + ",\"title\":"@ + ser_opt(v.title)
        + ",\"contents\":"@ + ser_contents(v.contents) + r6);
    lemma_parse_results_head(v, r6);
    assert(parse_results_head(buf) == Some(((v.url, v.title, v.contents), r6)));
    lemma_parse_lit(",\"lang\":"@, r7);
    assert(parse_lit(r6, ",\"lang\":"@) == Some(r7));
    lemma_parse_opt(v.lang, r8);
    assert(parse_opt(r7) == Some((v.lang, r8)));
    lemma_parse_lit(",\"favicon\":"@, r9);
    assert(parse_lit(r8, ",\"favicon\":"@) == Some(r9));
    lemma_parse_opt(v.favicon, r10);
    assert(parse_opt(r9) == Some((v.favicon, r10)));
    lemma_parse_lit(",\"links\":"@, r11);
    assert(parse_lit(r10, ",\"links\":"@) == Some(r11));
    lemma_parse_arr(v.links, r12);
    assert(parse_arr(r11) == Some((v.links, r12)));
    lemma_parse_lit(",\"document\":"@, r13);
    assert(parse_lit(r12, ",\"document\":"@) == Some(r13));
    lemma_parse_string(v.document, r14);
    assert(parse_string(r13) == Some((v.document, r14)));
    lemma_parse_lit(",\"text\":"@, r15);
    assert(parse_lit(r14, ",\"text\":"@) == Some(r15));
    lemma_parse_string(v.text, r16);
    assert(parse_string(r15) == Some((v.text, r16)));
    assert(r16[0] == '}');
    assert(r16.drop_first() =~= rest);
}

/// The envelope as canonical JSON: the discriminating `success` tag, then
/// the variant's fields in a fixed order.
pub open spec fn ser_envelope(v: ScraperResultView) -> Seq<char> {
    match v {
        ScraperResultView::Success { status, url, results } => "{\"success\":\"true\",\"status\":"@
            + dec_chars(status as nat) + ",\"url\":"@ + ser_string(url) + ",\"results\":"@
            + ser_results(results) + seq!['}'],
        ScraperResultView::Failed { error } => "{\"success\":\"false\",\"error\":"@ + ser_string(
            error,
        ) + seq!['}'],
    }
}

/// Reads an envelope value.
pub open spec fn parse_envelope_value(s: Seq<char>) -> Option<(ScraperResultView, Seq<char>)> {
    match parse_lit(s, "{\"success\":\"true\",\"status\":"@) {
        Some(s1) => match parse_number(s1) {
            None => None,
            Some((n, s2)) => if n <= 65535 {
                match parse_lit(s2, ",\"url\":"@) {
                    None => None,
                    Some(s3) => match parse_string(s3) {
                        None => None,
                        Some((url, s4)) => match parse_lit(s4, ",\"results\":"@) {
                            None => None,
                            Some(s5) => match parse_results(s5) {
                                None => None,
                                Some((results, s6)) => if s6.len() > 0 && s6[0] == '}' {
                                    Some(
                                        (
                                            ScraperResultView::Success {
                                                status: n as u16,
                                                url,
                                                results,
                                            },
                                            s6.drop_first(),
                                        ),
                                    )
                                } else {
                                    None
                                },
                            },
                        },
                    },
                }
            } else {
                None
            },
        },
        None => match parse_lit(s, "{\"success\":\"false\",\"error\":"@) {
            None => None,
            Some(s1) => match parse_string(s1) {
                None => None,
                Some((error, s2)) => if s2.len() > 0 && s2[0] == '}' {
                    Some((ScraperResultView::Failed { error }, s2.drop_first()))
                } else {
                    None
                },
            },
        },
    }
}

/// The first character of the `url` key literal, for the number reader's
/// stop condition.
proof fn lemma_url_key_head()
    ensures
        ",\"url\":"@[0] == ',',
        ",\"url\":"@.len() == 7,
{
    reveal_strlit(",\"url\":");
}

/// Reads a whole envelope: the value with nothing left over.
pub open spec fn parse_envelope(s: Seq<char>) -> Option<ScraperResultView> {
    match parse_envelope_value(s) {
        Some((v, rest)) => if rest.len() == 0 {
            Some(v)
        } else {
            None
        },
        None => None,
    }
}

/// Relies on `String::push`: appends one character.
#[verifier::external_body]
fn push_char(out: &mut String, c: char)
    ensures
        final(out)@ == old(out)@ + seq![c],
{
    out.push(c);
}

/// One lowercase hex digit as a string slice.
fn hex_lower_str(d: u8) -> (r: &'static str)
    requires
        d < 16,
    ensures
        r@ == seq![hex_lower_char(d as nat)],
{
    proof {
        reveal_strlit("0");
        reveal_strlit("1");
        reveal_strlit("2");
        reveal_strlit("3");
        reveal_strlit("4");
        reveal_strlit("5");
        reveal_strlit("6");
        reveal_strlit("7");
        reveal_strlit("8");
        reveal_strlit("9");
        reveal_strlit("a");
        reveal_strlit("b");
        reveal_strlit("c");
        reveal_strlit("d");
        reveal_strlit("e");
        reveal_strlit("f");
    }
    let r = match d {
        0 => "0",
        1 => "1",
        2 => "2",
        3 => "3",
        4 => "4",
        5 => "5",
        6 => "6",
        7 => "7",
        8 => "8",
        9 => "9",
        10 => "a",
        11 => "b",
        12 => "c",
        13 => "d",
        14 => "e",
        _ => "f",
    };
    proof {
        assert(r@ =~= seq![hex_lower_char(d as nat)]);
    }
    r
}

/// Appends the escaped body of `t`.
fn push_escaped(out: &mut String, t: &str)
    ensures
        final(out)@ == old(out)@ + esc_str(t@),
{
    let ghost out_start = out@;
    let len: usize = t.unicode_len();
    let mut i: usize = 0;
    proof {
        assert(t@.skip(0) =~= t@);
    }
    while i < len
        invariant
            len == t@.len(),
            i <= len,
            out_start + esc_str(t@) == out@ + esc_str(t@.skip(i as int)),
        decreases len - i,
    {
        let ghost pre = out@;
        let c = t.get_char(i);
        proof {
            assert(t@.skip(i as int)[0] == c);
            assert(t@.skip(i as int).drop_first() =~= t@.skip(i as int + 1));
        }
        if c == '"' {
            out.append("\\\"");
            proof {
                reveal_strlit("\\\"");
                assert(out@ =~= pre + esc_char(c));
            }
        } else if c == '\\' {
            out.append("\\\\");
            proof {
                reveal_strlit("\\\\");
                assert(out@ =~= pre + esc_char(c));
            }
        } else if c == '\n' {
            out.append("\\n");
            proof {
                reveal_strlit("\\n");
                assert(out@ =~= pre + esc_char(c));
            }
        } else if c == '\r' {
            out.append("\\r");
            proof {
                reveal_strlit("\\r");
                assert(out@ =~= pre + esc_char(c));
            }
        } else if c == '\t' {
            out.append("\\t");
            proof {
                reveal_strlit("\\t");
                assert(out@ =~= pre + esc_char(c));
            }
        } else if (c as u32) < 0x20 {
            out.append("\\u00");
            let v: u32 = c as u32;
            out.append(hex_lower_str((v / 16) as u8));
            out.append(hex_lower_str((v % 16) as u8));
            proof {
                reveal_strlit("\\u00");
                assert(out@ =~= pre + esc_char(c));
            }
        } else {
            out.append(t.substring_char(i, i + 1));
            proof {
                assert(out@ =~= pre + esc_char(c));
            }
        }
        proof {
            assert(pre + (esc_char(c) + esc_str(t@.skip(i as int + 1))) =~= out@ + esc_str(
                t@.skip(i as int + 1),
            ));
        }
        i = i + 1;
    }
    proof {
        assert(esc_str(t@.skip(len as int)) =~= Seq::<char>::empty());
        assert(out@ + Seq::<char>::empty() =~= out@);
    }
}

/// Appends a JSON string.
fn push_string(out: &mut String, t: &str)
    ensures
        final(out)@ == old(out)@ + ser_string(t@),
{
    let ghost pre = out@;
    out.append("\"");
    push_escaped(out, t);
    out.append("\"");
    proof {
        reveal_strlit("\"");
        assert(out@ =~= pre + ser_string(t@));
    }
}

/// Appends `null` or a JSON string.
fn push_opt(out: &mut String, o: &Option<String>)
    ensures
        final(out)@ == old(out)@ + ser_opt(o.deep_view()),
{
    let ghost pre = out@;
    match o {
        None => {
            out.append("null");
            proof {
                reveal_strlit("null");
                assert(out@ =~= pre + ser_opt(None));
            }
        },
        Some(t) => {
            push_string(out, t.as_str());
        },
    }
}

/// Appends a JSON array of strings.
fn push_arr(out: &mut String, a: &Vec<String>)
    ensures
        final(out)@ == old(out)@ + ser_arr(a.deep_view()),
{
    let ghost pre = out@;
    let ghost av = a.deep_view();
    out.append("[");
    proof {
        reveal_strlit("[");
        reveal_strlit("]");
    }
    let n: usize = a.len();
    if n > 0 {
        push_string(out, a[0].as_str());
        let mut i: usize = 1;
        proof {
            assert(out@ =~= pre + seq!['['] + ser_string(av[0]));
            assert(av.skip(1).len() == av.len() - 1);
        }
        while i < n
            invariant
                n == a@.len(),
                n == av.len(),
                1 <= i <= n,
                av == a.deep_view(),
                pre + seq!['['] + ser_string(av[0]) + ser_arr_tail(av.skip(1)) == out@
                    + ser_arr_tail(av.skip(i as int)),
            decreases n - i,
        {
            let ghost mid = out@;
            out.append(",");
            push_string(out, a[i].as_str());
            proof {
                reveal_strlit(",");
                assert(av.skip(i as int)[0] == av[i as int]);
                assert(av.skip(i as int).drop_first() =~= av.skip(i as int + 1));
                assert(out@ =~= mid + (seq![','] + ser_string(av[i as int])));
                assert(mid + ((seq![','] + ser_string(av[i as int])) + ser_arr_tail(
                    av.skip(i as int + 1),
                )) =~= out@ + ser_arr_tail(av.skip(i as int + 1)));
            }
            i = i + 1;
        }
        out.append("]");
        proof {
            assert(ser_arr_tail(av.skip(n as int)) =~= Seq::<char>::empty());
            assert(out@ =~= pre + ser_arr(av));
        }
    } else {
        out.append("]");
        proof {
            assert(out@ =~= pre + ser_arr(av));
        }
    }
}

/// Appends the contents mapping as a JSON object.
fn push_contents(out: &mut String, m: &Vec<(String, Vec<String>)>)
    ensures
        final(out)@ == old(out)@ + ser_contents(m.deep_view()),
{
    let ghost pre = out@;
    let ghost mv = m.deep_view();
    out.append("{");
    proof {
        reveal_strlit("{");
        reveal_strlit("}");
        reveal_strlit(":");
    }
    let n: usize = m.len();
    if n > 0 {
        push_string(out, m[0].0.as_str());
        out.append(":");
        push_arr(out, &m[0].1);
        let mut i: usize = 1;
        proof {
            assert(out@ =~= pre + seq!['{'] + ser_pair(mv[0].0, mv[0].1));
        }
        while i < n
            invariant
                n == m@.len(),
                n == mv.len(),
                1 <= i <= n,
                mv == m.deep_view(),
                pre + seq!['{'] + ser_pair(mv[0].0, mv[0].1) + ser_contents_tail(mv.skip(1))
                    == out@ + ser_contents_tail(mv.skip(i as int)),
            decreases n - i,
        {
            let ghost mid = out@;
            out.append(",");
            push_string(out, m[i].0.as_str());
            out.append(":");
            push_arr(out, &m[i].1);
            proof {
                reveal_strlit(",");
                reveal_strlit(":");
                assert(mv.skip(i as int)[0] == mv[i as int]);
                assert(mv.skip(i as int).drop_first() =~= mv.skip(i as int + 1));
                assert(mv[i as int].0 == m@[i as int].0@);
                assert(mv[i as int].1 == m@[i as int].1.deep_view());
                assert(out@ =~= mid + (seq![','] + ser_pair(mv[i as int].0, mv[i as int].1)));
                assert(mid + ((seq![','] + ser_pair(mv[i as int].0, mv[i as int].1))
                    + ser_contents_tail(mv.skip(i as int + 1))) =~= out@ + ser_contents_tail(
                    mv.skip(i as int + 1),
                ));
            }
            i = i + 1;
        }
        out.append("}");
        proof {
            assert(ser_contents_tail(mv.skip(n as int)) =~= Seq::<char>::empty());
            assert(out@ =~= pre + ser_contents(mv));
        }
    } else {
        out.append("}");
        proof {
            assert(out@ =~= pre + ser_contents(mv));
        }
    }
}

/// Appends a scrape result object.
#[verifier::rlimit(100)]
#[verifier::spinoff_prover]
fn push_results(out: &mut String, res: &ScrapeResults)
    ensures
        final(out)@ == old(out)@ + ser_results(res@),
{
    let ghost pre = out@;
    out.append("{\"url\":");
    push_string(out, res.url.as_str());
    out.append(",\"title\":");
    push_opt(out, &res.title);
    out.append(",\"contents\":");
    push_contents(out, &res.contents);
    out.append(",\"lang\":");
    push_opt(out, &res.lang);
    out.append(",\"favicon\":");
    push_opt(out, &res.favicon);
    out.append(",\"links\":");
    push_arr(out, &res.links);
    out.append(",\"document\":");
    push_string(out, res.document.as_str());
    out.append(",\"text\":");
    push_string(out, res.text.as_str());
    out.append("}");
    proof {
        reveal_strlit("}");
        assert(out@ =~= pre + ser_results(res@));
    }
}

/// Serializes an envelope into its canonical JSON.
pub fn serialize_result(r: &ScraperResult) -> (out: String)
    ensures
        out@ == ser_envelope(r@),
{
    let mut out = String::new();
    match r {
        ScraperResult::Success { status, url, results } => {
            out.append("{\"success\":\"true\",\"status\":");
            let st = fmt_u16(*status);
            out.append(st.as_str());
            out.append(",\"url\":");
            push_string(&mut out, url.as_str());
            out.append(",\"results\":");
            push_results(&mut out, results);
            out.append("}");
            proof {
                reveal_strlit("}");
                assert(out@ =~= ser_envelope(r@));
            }
        },
        ScraperResult::Failed { error } => {
            out.append("{\"success\":\"false\",\"error\":");
            push_string(&mut out, error.as_str());
            out.append("}");
            proof {
                reveal_strlit("}");
                assert(out@ =~= ser_envelope(r@));
            }
        },
    }
    out
}

/// Law: the envelope codec round-trips — deserializing a serialized
/// scrape result yields the same envelope, with field order and every
/// string value preserved exactly.
#[verifier::rlimit(100)]
#[verifier::spinoff_prover]
pub proof fn lemma_envelope_round_trip(v: ScraperResultView)
    ensures
        parse_envelope(ser_envelope(v)) == Some(v),
{
    let buf = ser_envelope(v);
    match v {
        ScraperResultView::Success { status, url, results } => {
            let r6: Seq<char> = seq!['}'];
            let r5 = ser_results(results) + r6;
            let r4 = ",\"results\":"@ + r5;
            let r3 = ser_string(url) + r4;
            let r2 = ",\"url\":"@ + r3;
            let r1 = dec_chars(status as nat) + r2;
            assert(buf =~= "{\"success\":\"true\",\"status\":"@ + r1);
            lemma_parse_lit("{\"success\":\"true\",\"status\":"@, r1);
            lemma_url_key_head();
            assert(r2[0] == ',');
            lemma_parse_number(status as nat, r2);
            lemma_parse_lit(",\"url\":"@, r3);
            lemma_parse_string(url, r4);
            lemma_parse_lit(",\"results\":"@, r5);
            lemma_parse_results(results, r6);
            assert(r6[0] == '}');
            assert(r6.drop_first() =~= Seq::<char>::empty());
            assert((status as nat) as u16 == status);
        },
        ScraperResultView::Failed { error } => {
            let r2: Seq<char> = seq!['}'];
            let r1 = ser_string(error) + r2;
            assert(buf =~= "{\"success\":\"false\",\"error\":"@ + r1);
            assert(parse_lit(buf, "{\"success\":\"true\",\"status\":"@) is None) by {
                reveal_strlit("{\"success\":\"true\",\"status\":");
                reveal_strlit("{\"success\":\"false\",\"error\":");
                let tl = "{\"success\":\"true\",\"status\":"@;
                if parse_lit(buf, tl) is Some {
                    assert(buf.subrange(0, tl.len() as int) == tl);
                    assert(buf.subrange(0, tl.len() as int)[12] == tl[12]);
                    assert(buf[12] == "{\"success\":\"false\",\"error\":"@[12]);
                    assert(tl[12] == 't');
                    assert("{\"success\":\"false\",\"error\":"@[12] == 'f');
                }
            }
            lemma_parse_lit("{\"success\":\"false\",\"error\":"@, r1);
            lemma_parse_string(error, r2);
            assert(r2[0] == '}');
            assert(r2.drop_first() =~= Seq::<char>::empty());
        },
    }
}


/// The input after its first `k` characters.
fn rest_from(s: &str, k: usize) -> (r: &str)
    requires
        k <= s@.len(),
    ensures
        r@ == s@.skip(k as int),
{
    let len: usize = s.unicode_len();
    let r = s.substring_char(k, len);
    proof {
        assert(s@.subrange(k as int, len as int) =~= s@.skip(k as int));
    }
    r
}

/// Expects a literal prefix.
fn parse_lit_exec<'a>(s: &'a str, lit: &str) -> (r: Option<&'a str>)
    ensures
        match r {
            Some(rest) => parse_lit(s@, lit@) == Some(rest@),
            None => parse_lit(s@, lit@) is None,
        },
{
    if crate::utils::str_has_prefix(s, lit) {
        let k: usize = lit.unicode_len();
        Some(rest_from(s, k))
    } else {
        None
    }
}

/// Value of a lowercase hex digit character.
fn hex_val_exec(c: char) -> (r: Option<u8>)
    ensures
        match r {
            Some(d) => hex_char_val(c) == Some(d as nat),
            None => hex_char_val(c) is None,
        },
{
    if c == '0' {
        Some(0)
    } else if c == '1' {
        Some(1)
    } else if c == '2' {
        Some(2)
    } else if c == '3' {
        Some(3)
    } else if c == '4' {
        Some(4)
    } else if c == '5' {
        Some(5)
    } else if c == '6' {
        Some(6)
    } else if c == '7' {
        Some(7)
    } else if c == '8' {
        Some(8)
    } else if c == '9' {
        Some(9)
    } else if c == 'a' {
        Some(10)
    } else if c == 'b' {
        Some(11)
    } else if c == 'c' {
        Some(12)
    } else if c == 'd' {
        Some(13)
    } else if c == 'e' {
        Some(14)
    } else if c == 'f' {
        Some(15)
    } else {
        None
    }
}

/// Reads a string body, mirroring the ghost reader.
fn parse_string_body_exec<'a>(s: &'a str, acc: String) -> (r: Option<(String, &'a str)>)
    ensures
        match r {
            Some(p) => parse_string_body(s@, acc@) == Some((p.0@, p.1@)),
            None => parse_string_body(s@, acc@) is None,
        },
    decreases s@.len(),
{
    let len: usize = s.unicode_len();
    if len == 0 {
        return None;
    }
    let c0 = s.get_char(0);
    if c0 == '"' {
        let rest = rest_from(s, 1);
        proof {
            assert(s@.skip(1) =~= s@.drop_first());
        }
        return Some((acc, rest));
    }
    if c0 == '\\' {
        if len < 2 {
            return None;
        }
        let c1 = s.get_char(1);
        if c1 == '"' || c1 == '\\' || c1 == 'n' || c1 == 'r' || c1 == 't' {
            let decoded: char = if c1 == '"' {
                '"'
            } else if c1 == '\\' {
                '\\'
            } else if c1 == 'n' {
                '\n'
            } else if c1 == 'r' {
                '\r'
            } else {
                '\t'
            };
            let ghost acc0 = acc@;
            let mut acc2 = acc;
            push_char(&mut acc2, decoded);
            proof {
                assert(acc2@ =~= acc0.push(decoded));
            }
            let tail = rest_from(s, 2);
            return parse_string_body_exec(tail, acc2);
        }
        if c1 == 'u' {
            if len < 6 {
                return None;
            }
            if s.get_char(2) != '0' || s.get_char(3) != '0' {
                return None;
            }
            let h4 = hex_val_exec(s.get_char(4));
            let h5 = hex_val_exec(s.get_char(5));
            match (h4, h5) {
                (Some(a), Some(b)) => {
                    let v: u8 = a * 16 + b;
                    if v < 0x20 {
                        let decoded: char = v as char;
                        proof {
                            let n = hex_char_val(s@[4])->0 * 16 + hex_char_val(s@[5])->0;
                            assert(n == v as nat);
                            assert(decoded == ((n as u32) as char));
                        }
                        let ghost acc0 = acc@;
                        let mut acc2 = acc;
                        push_char(&mut acc2, decoded);
                        proof {
                            assert(acc2@ =~= acc0.push(decoded));
                        }
                        let tail = rest_from(s, 6);
                        return parse_string_body_exec(tail, acc2);
                    } else {
                        return None;
                    }
                },
                _ => {
                    return None;
                },
            }
        }
        return None;
    }
    if (c0 as u32) < 0x20 {
        return None;
    }
    let ghost acc0 = acc@;
    let mut acc2 = acc;
    push_char(&mut acc2, c0);
    let tail = rest_from(s, 1);
    proof {
        assert(acc2@ =~= acc0.push(c0));
        assert(s@.skip(1) =~= s@.drop_first());
    }
    parse_string_body_exec(tail, acc2)
}

/// Reads a JSON string.
fn parse_string_exec<'a>(s: &'a str) -> (r: Option<(String, &'a str)>)
    ensures
        match r {
            Some(p) => parse_string(s@) == Some((p.0@, p.1@)),
            None => parse_string(s@) is None,
        },
{
    let len: usize = s.unicode_len();
    if len == 0 {
        return None;
    }
    if s.get_char(0) != '"' {
        return None;
    }
    let tail = rest_from(s, 1);
    proof {
        assert(s@.skip(1) =~= s@.drop_first());
    }
    parse_string_body_exec(tail, String::new())
}

/// Reads a status number that must fit in sixteen bits.
fn parse_u16_exec<'a>(s: &'a str) -> (r: Option<(u16, &'a str)>)
    ensures
        match parse_number(s@) {
            None => r is None,
            Some((n, rest)) => if n <= 65535 {
                r matches Some(p) && p.0 == n && p.1@ == rest
            } else {
                r is None
            },
        },
{
    let len: usize = s.unicode_len();
    if len == 0 {
        return None;
    }
    let mut acc: u32 = 0;
    let mut i: usize = 0;
    let mut stop: bool = false;
    let first = hex_val_exec(s.get_char(0));
    match first {
        Some(d) if d < 10 => {
        },
        _ => {
            proof {
                assert(digit_val(s@[0]) is None);
            }
            return None;
        },
    }
    proof {
        assert(s@.skip(0) =~= s@);
    }
    while i < len && !stop
        invariant
            len == s@.len(),
            i <= len,
            acc <= 65535,
            parse_digits(s@, 0) == parse_digits(s@.skip(i as int), acc as nat),
            stop && i < len ==> digit_val(s@[i as int]) is None,
        decreases len - i, (if stop { 0int } else { 1int }),
    {
        let c = s.get_char(i);
        let dv = hex_val_exec(c);
        match dv {
            Some(d) if d < 10 => {
                proof {
                    assert(digit_val(s@[i as int]) == Some(d as nat));
                    assert(s@.skip(i as int)[0] == s@[i as int]);
                    assert(s@.skip(i as int).drop_first() =~= s@.skip(i as int + 1));
                }
                let next: u32 = acc * 10 + (d as u32);
                if next > 65535 {
                    proof {
                        lemma_parse_digits_ge(s@.skip(i as int + 1), next as nat);
                        assert(parse_digits(s@, 0).0 >= next as nat);
                    }
                    return None;
                }
                acc = next;
                i = i + 1;
            },
            _ => {
                proof {
                    assert(digit_val(s@[i as int]) is None);
                }
                stop = true;
            },
        }
    }
    proof {
        if i < len {
            assert(s@.skip(i as int)[0] == s@[i as int]);
        }
        assert(parse_digits(s@.skip(i as int), acc as nat) == (acc as nat, s@.skip(i as int)));
    }
    let rest = rest_from(s, i);
    Some((acc as u16, rest))
}

/// Reads `null` or a JSON string.
fn parse_opt_exec<'a>(s: &'a str) -> (r: Option<(Option<String>, &'a str)>)
    ensures
        match r {
            Some(p) => parse_opt(s@) == Some((p.0.deep_view(), p.1@)),
            None => parse_opt(s@) is None,
        },
{
    proof {
        reveal_strlit("null");
        assert("null"@ =~= seq!['n', 'u', 'l', 'l']);
    }
    if crate::utils::str_has_prefix(s, "null") {
        proof {
            assert(s@.subrange(0, 4) =~= seq!['n', 'u', 'l', 'l']);
        }
        let rest = rest_from(s, 4);
        Some((None, rest))
    } else {
        proof {
            if s@.len() >= 4 && s@.subrange(0, 4) == seq!['n', 'u', 'l', 'l'] {
                assert(s@.subrange(0, 4) =~= "null"@);
                assert(crate::utils::spec_starts_with(s@, "null"@));
            }
        }
        match parse_string_exec(s) {
            Some((t, rest)) => Some((Some(t), rest)),
            None => None,
        }
    }
}

/// Reads the items of a string array after the first.
fn parse_arr_tail_exec<'a>(s: &'a str, acc: Vec<String>) -> (r: Option<(Vec<String>, &'a str)>)
    ensures
        match r {
            Some(p) => parse_arr_tail(s@, acc.deep_view()) == Some((p.0.deep_view(), p.1@)),
            None => parse_arr_tail(s@, acc.deep_view()) is None,
        },
    decreases s@.len(),
{
    let len: usize = s.unicode_len();
    if len == 0 {
        return None;
    }
    let c0 = s.get_char(0);
    if c0 == ']' {
        let rest = rest_from(s, 1);
        proof {
            assert(s@.skip(1) =~= s@.drop_first());
        }
        return Some((acc, rest));
    }
    if c0 == ',' {
        let tail = rest_from(s, 1);
        proof {
            assert(s@.skip(1) =~= s@.drop_first());
            lemma_parse_string_shrinks(s@.drop_first());
        }
        match parse_string_exec(tail) {
            Some((t, rest)) => {
                let mut acc2 = acc;
                let ghost pre = acc2.deep_view();
                acc2.push(t);
                proof {
                    assert(acc2.deep_view() =~= pre.push(
                        (parse_string(s@.drop_first())->0).0,
                    ));
                }
                parse_arr_tail_exec(rest, acc2)
            },
            None => None,
        }
    } else {
        None
    }
}

/// Reads a JSON array of strings.
fn parse_arr_exec<'a>(s: &'a str) -> (r: Option<(Vec<String>, &'a str)>)
    ensures
        match r {
            Some(p) => parse_arr(s@) == Some((p.0.deep_view(), p.1@)),
            None => parse_arr(s@) is None,
        },
{
    let len: usize = s.unicode_len();
    if len == 0 {
        return None;
    }
    if s.get_char(0) != '[' {
        return None;
    }
    if len >= 2 && s.get_char(1) == ']' {
        let rest = rest_from(s, 2);
        let empty_vec: Vec<String> = Vec::new();
        proof {
            assert(empty_vec.deep_view() =~= Seq::<Seq<char>>::empty());
        }
        return Some((empty_vec, rest));
    }
    let tail = rest_from(s, 1);
    proof {
        assert(s@.skip(1) =~= s@.drop_first());
    }
    match parse_string_exec(tail) {
        Some((t, rest)) => {
            let mut acc: Vec<String> = Vec::new();
            acc.push(t);
            proof {
                assert(acc.deep_view() =~= seq![(parse_string(s@.drop_first())->0).0]);
            }
            parse_arr_tail_exec(rest, acc)
        },
        None => None,
    }
}

/// Reads one contents entry.
fn parse_pair_exec<'a>(s: &'a str) -> (r: Option<((String, Vec<String>), &'a str)>)
    ensures
        match r {
            Some(p) => parse_pair(s@) == Some(((p.0.0@, p.0.1.deep_view()), p.1@)),
            None => parse_pair(s@) is None,
        },
{
    match parse_string_exec(s) {
        Some((name, r1)) => {
            let r1len: usize = r1.unicode_len();
            if r1len == 0 {
                return None;
            }
            if r1.get_char(0) != ':' {
                return None;
            }
            let tail = rest_from(r1, 1);
            proof {
                assert(r1@.skip(1) =~= r1@.drop_first());
            }
            match parse_arr_exec(tail) {
                Some((vals, r2)) => Some(((name, vals), r2)),
                None => None,
            }
        },
        None => None,
    }
}

/// Reads the entries of a contents object after the first.
fn parse_contents_tail_exec<'a>(s: &'a str, acc: Vec<(String, Vec<String>)>) -> (r: Option<
    (Vec<(String, Vec<String>)>, &'a str),
>)
    ensures
        match r {
            Some(p) => parse_contents_tail(s@, acc.deep_view()) == Some((p.0.deep_view(), p.1@)),
            None => parse_contents_tail(s@, acc.deep_view()) is None,
        },
    decreases s@.len(),
{
    let len: usize = s.unicode_len();
    if len == 0 {
        return None;
    }
    let c0 = s.get_char(0);
    if c0 == '}' {
        let rest = rest_from(s, 1);
        proof {
            assert(s@.skip(1) =~= s@.drop_first());
        }
        return Some((acc, rest));
    }
    if c0 == ',' {
        let tail = rest_from(s, 1);
        proof {
            assert(s@.skip(1) =~= s@.drop_first());
            lemma_parse_pair_shrinks(s@.drop_first());
        }
        match parse_pair_exec(tail) {
            Some((p, rest)) => {
                let mut acc2 = acc;
                let ghost pre = acc2.deep_view();
                acc2.push(p);
                proof {
                    assert(acc2.deep_view() =~= pre.push((parse_pair(s@.drop_first())->0).0));
                }
                parse_contents_tail_exec(rest, acc2)
            },
            None => None,
        }
    } else {
        None
    }
}

/// Reads a contents object.
fn parse_contents_exec<'a>(s: &'a str) -> (r: Option<(Vec<(String, Vec<String>)>, &'a str)>)
    ensures
        match r {
            Some(p) => parse_contents(s@) == Some((p.0.deep_view(), p.1@)),
            None => parse_contents(s@) is None,
        },
{
    let len: usize = s.unicode_len();
    if len == 0 {
        return None;
    }
    if s.get_char(0) != '{' {
        return None;
    }
    if len >= 2 && s.get_char(1) == '}' {
        let rest = rest_from(s, 2);
        let empty_vec: Vec<(String, Vec<String>)> = Vec::new();
        proof {
            assert(empty_vec.deep_view() =~= Seq::<(Seq<char>, Seq<Seq<char>>)>::empty());
        }
        return Some((empty_vec, rest));
    }
    let tail = rest_from(s, 1);
    proof {
        assert(s@.skip(1) =~= s@.drop_first());
    }
    match parse_pair_exec(tail) {
        Some((p, rest)) => {
            let mut acc: Vec<(String, Vec<String>)> = Vec::new();
            acc.push(p);
            proof {
                assert(acc.deep_view() =~= seq![(parse_pair(s@.drop_first())->0).0]);
            }
            parse_contents_tail_exec(rest, acc)
        },
        None => None,
    }
}

/// Reads a scrape result object.
#[verifier::rlimit(100)]
#[verifier::spinoff_prover]
fn parse_results_exec<'a>(s: &'a str) -> (r: Option<(ScrapeResults, &'a str)>)
    ensures
        match r {
            Some(p) => parse_results(s@) == Some((p.0@, p.1@)),
            None => parse_results(s@) is None,
        },
{
    let s1 = match parse_lit_exec(s, "{\"url\":") {
        Some(x) => x,
        None => {
            return None;
        },
    };
    let (url, s2) = match parse_string_exec(s1) {
        Some(x) => x,
        None => {
            return None;
        },
    };
    let s3 = match parse_lit_exec(s2, ",\"title\":") {
        Some(x) => x,
        None => {
            return None;
        },
    };
    let (title, s4) = match parse_opt_exec(s3) {
        Some(x) => x,
        None => {
            return None;
        },
    };
    let s5 = match parse_lit_exec(s4, ",\"contents\":") {
        Some(x) => x,
        None => {
            return None;
        },
    };
    let (contents, s6) = match parse_contents_exec(s5) {
        Some(x) => x,
        None => {
            return None;
        },
    };
    let s7 = match parse_lit_exec(s6, ",\"lang\":") {
        Some(x) => x,
        None => {
            return None;
        },
    };
    let (lang, s8) = match parse_opt_exec(s7) {
        Some(x) => x,
        None => {
            return None;
        },
    };
    let s9 = match parse_lit_exec(s8, ",\"favicon\":") {
        Some(x) => x,
        None => {
            return None;
        },
    };
    let (favicon, s10) = match parse_opt_exec(s9) {
        Some(x) => x,
        None => {
            return None;
        },
    };
    let s11 = match parse_lit_exec(s10, ",\"links\":") {
        Some(x) => x,
        None => {
            return None;
        },
    };
    let (links, s12) = match parse_arr_exec(s11) {
        Some(x) => x,
        None => {
            return None;
        },
    };
    let s13 = match parse_lit_exec(s12, ",\"document\":") {
        Some(x) => x,
        None => {
            return None;
        },
    };
    let (document, s14) = match parse_string_exec(s13) {
        Some(x) => x,
        None => {
            return None;
        },
    };
    let s15 = match parse_lit_exec(s14, ",\"text\":") {
        Some(x) => x,
        None => {
            return None;
        },
    };
    let (text, s16) = match parse_string_exec(s15) {
        Some(x) => x,
        None => {
            return None;
        },
    };
    let s16len: usize = s16.unicode_len();
    if s16len == 0 {
        return None;
    }
    if s16.get_char(0) != '}' {
        return None;
    }
    let rest = rest_from(s16, 1);
    proof {
        assert(s16@.skip(1) =~= s16@.drop_first());
    }
    let out = ScrapeResults { url, title, contents, lang, favicon, links, document, text };
    Some((out, rest))
}

/// Deserializes a canonical envelope; `None` on anything else.
#[verifier::rlimit(100)]
#[verifier::spinoff_prover]
pub fn deserialize_result(s: &str) -> (r: Option<ScraperResult>)
    ensures
        match r {
            Some(v) => parse_envelope(s@) == Some(v@),
            None => parse_envelope(s@) is None,
        },
{
    match parse_lit_exec(s, "{\"success\":\"true\",\"status\":") {
        Some(s1) => {
            let (status, s2) = match parse_u16_exec(s1) {
                Some(x) => x,
                None => {
                    return None;
                },
            };
            let s3 = match parse_lit_exec(s2, ",\"url\":") {
                Some(x) => x,
                None => {
                    return None;
                },
            };
            let (url, s4) = match parse_string_exec(s3) {
                Some(x) => x,
                None => {
                    return None;
                },
            };
            let s5 = match parse_lit_exec(s4, ",\"results\":") {
                Some(x) => x,
                None => {
                    return None;
                },
            };
            let (results, s6) = match parse_results_exec(s5) {
                Some(x) => x,
                None => {
                    return None;
                },
            };
            let s6len: usize = s6.unicode_len();
            if s6len != 1 {
                return None;
            }
            if s6.get_char(0) != '}' {
                return None;
            }
            proof {
                assert(s6@.drop_first() =~= Seq::<char>::empty());
            }
            Some(ScraperResult::Success { status, url, results })
        },
        None => {
            let s1 = match parse_lit_exec(s, "{\"success\":\"false\",\"error\":") {
                Some(x) => x,
                None => {
                    return None;
                },
            };
            let (error, s2) = match parse_string_exec(s1) {
                Some(x) => x,
                None => {
                    return None;
                },
            };
            let s2len: usize = s2.unicode_len();
            if s2len != 1 {
                return None;
            }
            if s2.get_char(0) != '}' {
                return None;
            }
            proof {
                assert(s2@.drop_first() =~= Seq::<char>::empty());
            }
            Some(ScraperResult::Failed { error })
        },
    }
}

} // verus!
