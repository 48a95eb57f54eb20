//! Character-level building blocks for the JSON wire text: string escaping
//! and decimal rendering, each stated against a spec-level definition.

use vstd::prelude::*;
use vstd::string::*;

verus! {

/// Appends one character to a string.
///
/// Relies on String::push: std documents that it appends the given `char`
/// to the end of the `String`.
#[verifier::external_body]
pub fn push_char(s: &mut String, c: char)
    ensures
        final(s)@ == old(s)@.push(c),
{
    s.push(c);
}

/// The lower-case hexadecimal digit for a value below 16.
pub open spec fn spec_hex_char(d: u32) -> char {
    if d == 0 { '0' } else if d == 1 { '1' } else if d == 2 { '2' } else if d == 3 { '3' }
    else if d == 4 { '4' } else if d == 5 { '5' } else if d == 6 { '6' } else if d == 7 { '7' }
    else if d == 8 { '8' } else if d == 9 { '9' } else if d == 10 { 'a' } else if d == 11 { 'b' }
    else if d == 12 { 'c' } else if d == 13 { 'd' } else if d == 14 { 'e' } else { 'f' }
}

pub fn hex_char(d: u32) -> (c: char)
    requires
        d < 16,
    ensures
        c == spec_hex_char(d),
{
    if d == 0 { '0' } else if d == 1 { '1' } else if d == 2 { '2' } else if d == 3 { '3' }
    else if d == 4 { '4' } else if d == 5 { '5' } else if d == 6 { '6' } else if d == 7 { '7' }
    else if d == 8 { '8' } else if d == 9 { '9' } else if d == 10 { 'a' } else if d == 11 { 'b' }
    else if d == 12 { 'c' } else if d == 13 { 'd' } else if d == 14 { 'e' } else { 'f' }
}

/// How a single character appears inside a JSON string literal: quote and
/// backslash are escaped, control characters use the `\u00XX` form, and
/// every other character stands for itself.
pub open spec fn spec_escaped_char(c: char) -> Seq<char> {
    if c == '"' {
        seq!['\\', '"']
    } else if c == '\\' {
        seq!['\\', '\\']
    } else if (c as u32) < 0x20 {
        seq!['\\', 'u', '0', '0', spec_hex_char((c as u32) / 16), spec_hex_char((c as u32) % 16)]
    } else {
        seq![c]
    }
}

/// The body of a JSON string literal holding the characters of `s`.
pub open spec fn spec_escape(s: Seq<char>) -> Seq<char>
    decreases s.len(),
{
    if s.len() == 0 {
        Seq::empty()
    } else {
        spec_escaped_char(s[0]) + spec_escape(s.drop_first())
    }
}

proof fn lemma_escape_snoc(s: Seq<char>, c: char)
    ensures
        spec_escape(s.push(c)) == spec_escape(s) + spec_escaped_char(c),
    decreases s.len(),
{
    if s.len() == 0 {
        assert(s.push(c)[0] == c);
        assert(s.push(c).drop_first() =~= Seq::<char>::empty());
        assert(spec_escaped_char(c) + spec_escape(Seq::<char>::empty()) =~= spec_escaped_char(c));
        assert(spec_escape(s) + spec_escaped_char(c) =~= spec_escaped_char(c));
    } else {
        assert(s.push(c).drop_first() =~= s.drop_first().push(c));
        lemma_escape_snoc(s.drop_first(), c);
        assert(s.push(c)[0] == s[0]);
        assert(spec_escape(s.push(c)) == spec_escaped_char(s[0]) + (spec_escape(s.drop_first())
            + spec_escaped_char(c)));
        assert(spec_escaped_char(s[0]) + (spec_escape(s.drop_first()) + spec_escaped_char(c))
            =~= (spec_escaped_char(s[0]) + spec_escape(s.drop_first())) + spec_escaped_char(c));
    }
}

/// Appends the JSON-escaped form of `s` to `out`.
pub fn append_escaped(out: &mut String, s: &str)
    ensures
        final(out)@ == old(out)@ + spec_escape(s@),
{
    let n = s.unicode_len();
    let mut i: usize = 0;
    while i < n
        invariant
            i <= n,
            n == s@.len(),
            out@ == old(out)@ + spec_escape(s@.subrange(0, i as int)),
        decreases n - i,
    {
        let c = s.get_char(i);
        if c == '"' {
            out.append("\\\"");
            proof {
                reveal_strlit("\\\"");
                assert("\\\""@ =~= spec_escaped_char(c));
            }
        } else if c == '\\' {
            out.append("\\\\");
            proof {
                reveal_strlit("\\\\");
                assert("\\\\"@ =~= spec_escaped_char(c));
            }
        } else if (c as u32) < 0x20 {
            out.append("\\u00");
            push_char(out, hex_char((c as u32) / 16));
            push_char(out, hex_char((c as u32) % 16));
            proof {
                reveal_strlit("\\u00");
                assert("\\u00"@.push(spec_hex_char((c as u32) / 16)).push(
                    spec_hex_char((c as u32) % 16)) =~= spec_escaped_char(c));
            }
        } else {
            push_char(out, c);
            proof {
                assert(Seq::empty().push(c) =~= spec_escaped_char(c));
            }
        }
        proof {
            assert(s@.subrange(0, i as int).push(s@[i as int]) =~= s@.subrange(0, i + 1 as int));
            lemma_escape_snoc(s@.subrange(0, i as int), s@[i as int]);
        }
        i = i + 1;
    }
    proof {
        assert(s@.subrange(0, n as int) =~= s@);
    }
}

/// The decimal digit character for a value below ten.
pub open spec fn spec_digit_char(d: nat) -> char {
    if d == 0 { '0' } else if d == 1 { '1' } else if d == 2 { '2' } else if d == 3 { '3' }
    else if d == 4 { '4' } else if d == 5 { '5' } else if d == 6 { '6' } else if d == 7 { '7' }
    else if d == 8 { '8' } else { '9' }
}

pub fn digit_char(d: u64) -> (c: char)
    requires
        d < 10,
    ensures
        c == spec_digit_char(d as nat),
{
    if d == 0 { '0' } else if d == 1 { '1' } else if d == 2 { '2' } else if d == 3 { '3' }
    else if d == 4 { '4' } else if d == 5 { '5' } else if d == 6 { '6' } else if d == 7 { '7' }
    else if d == 8 { '8' } else { '9' }
}

/// The shortest decimal rendering of a natural number.
pub open spec fn spec_decimal(n: nat) -> Seq<char>
    decreases n,
{
    if n < 10 {
        seq![spec_digit_char(n)]
    } else {
        spec_decimal(n / 10).push(spec_digit_char(n % 10))
    }
}

/// Renders a number in decimal.
pub fn decimal_string(n: u64) -> (s: String)
    ensures
        s@ == spec_decimal(n as nat),
    decreases n,
{
    if n < 10 {
        let mut s = String::new();
        push_char(&mut s, digit_char(n));
        proof {
            assert(Seq::empty().push(spec_digit_char(n as nat)) =~= spec_decimal(n as nat));
        }
        s
    } else {
        let mut s = decimal_string(n / 10);
        push_char(&mut s, digit_char(n % 10));
        s
    }
}

/// The numeric value spelled by a sequence of decimal digit characters,
/// read left to right.
pub open spec fn spec_digits_value(s: Seq<char>) -> nat
    decreases s.len(),
{
    if s.len() == 0 {
        0
    } else {
        spec_digits_value(s.drop_last()) * 10 + spec_digit_value(s.last())
    }
}

/// The numeric value of one decimal digit character; ten for anything else.
pub open spec fn spec_digit_value(c: char) -> nat {
    if c == '0' { 0 } else if c == '1' { 1 } else if c == '2' { 2 } else if c == '3' { 3 }
    else if c == '4' { 4 } else if c == '5' { 5 } else if c == '6' { 6 } else if c == '7' { 7 }
    else if c == '8' { 8 } else if c == '9' { 9 } else { 10 }
}

/// Reading the decimal rendering back yields the number: decimal text is a
/// faithful carrier for naturals.
pub proof fn lemma_decimal_value(n: nat)
    ensures
        spec_digits_value(spec_decimal(n)) == n,
    decreases n,
{
    if n < 10 {
        assert(spec_decimal(n).len() == 1);
        assert(spec_decimal(n).last() == spec_digit_char(n));
        assert(spec_decimal(n).drop_last() =~= Seq::<char>::empty());
        assert(spec_digits_value(spec_decimal(n)) == spec_digits_value(Seq::<char>::empty()) * 10
            + spec_digit_value(spec_digit_char(n)));
        assert(spec_digit_value(spec_digit_char(n)) == n);
    } else {
        lemma_decimal_value(n / 10);
        assert(spec_decimal(n).drop_last() =~= spec_decimal(n / 10));
        assert(spec_decimal(n).last() == spec_digit_char(n % 10));
        assert(spec_digit_value(spec_digit_char(n % 10)) == n % 10);
        assert(n == (n / 10) * 10 + n % 10) by (nonlinear_arith);
    }
}


/// Every value of the hexadecimal digit function determines its argument.
proof fn lemma_hex_char_injective(d1: u32, d2: u32)
    requires
        d1 < 16,
        d2 < 16,
        spec_hex_char(d1) == spec_hex_char(d2),
    ensures
        d1 == d2,
{
}

/// Law: escaping is injective — the escaped wire text of a JSON string
/// literal determines the unescaped characters, so a conforming decoder
/// recovers string payloads from the emitted text exactly.
pub proof fn lemma_escape_injective(a: Seq<char>, b: Seq<char>)
    requires
        spec_escape(a) == spec_escape(b),
    ensures
        a == b,
    decreases a.len(),
{
    if a.len() == 0 {
        if b.len() > 0 {
            assert(spec_escape(b).len() >= spec_escaped_char(b[0]).len());
            assert(spec_escaped_char(b[0]).len() >= 1);
            assert(false);
        }
        assert(a =~= b);
    } else if b.len() == 0 {
        assert(spec_escape(a).len() >= spec_escaped_char(a[0]).len());
        assert(spec_escaped_char(a[0]).len() >= 1);
        assert(false);
    } else {
        let ea = spec_escaped_char(a[0]);
        let eb = spec_escaped_char(b[0]);
        let ta = spec_escape(a.drop_first());
        let tb = spec_escape(b.drop_first());
        assert((ea + ta)[0] == ea[0]);
        assert((eb + tb)[0] == eb[0]);
        lemma_escaped_char_same_head(a[0], b[0], ea + ta, eb + tb);
        assert(a[0] == b[0]);
        assert(ea == eb);
        assert(ta.len() == tb.len());
        assert forall|i: int| 0 <= i < ta.len() implies ta[i] == tb[i] by {
            assert(ta[i] == (ea + ta)[ea.len() + i]);
            assert(tb[i] == (eb + tb)[eb.len() + i]);
        }
        assert(ta =~= tb);
        lemma_escape_injective(a.drop_first(), b.drop_first());
        assert(a.len() == b.len());
        assert forall|i: int| 0 <= i < a.len() implies a[i] == b[i] by {
            if i > 0 {
                assert(a[i] == a.drop_first()[i - 1]);
                assert(b[i] == b.drop_first()[i - 1]);
            }
        }
        assert(a =~= b);
    }
}

/// Two characters whose escapings start one equal stream are the same
/// character, and their escapings are equal.
proof fn lemma_escaped_char_same_head(ca: char, cb: char, wa: Seq<char>, wb: Seq<char>)
    requires
        wa == wb,
        wa.len() >= spec_escaped_char(ca).len(),
        wb.len() >= spec_escaped_char(cb).len(),
        forall|i: int| 0 <= i < spec_escaped_char(ca).len() ==> wa[i] == spec_escaped_char(ca)[i],
        forall|i: int| 0 <= i < spec_escaped_char(cb).len() ==> wb[i] == spec_escaped_char(cb)[i],
    ensures
        ca == cb,
{
    let ea = spec_escaped_char(ca);
    let eb = spec_escaped_char(cb);
    let a_plain = ca != '"' && ca != '\\' && (ca as u32) >= 0x20;
    let b_plain = cb != '"' && cb != '\\' && (cb as u32) >= 0x20;
    if a_plain && b_plain {
        assert(wa[0] == ca && wb[0] == cb);
    } else if a_plain {
        assert(wa[0] == ca && wb[0] == '\\');
        assert(false);
    } else if b_plain {
        assert(wb[0] == cb && wa[0] == '\\');
        assert(false);
    } else {
        // both escape forms: the second character separates the three kinds
        if ca == '"' || ca == '\\' {
            assert(wa[1] == ea[1]);
        } else {
            assert(wa[1] == 'u');
        }
        if ca == '"' && cb == '"' {
        } else if ca == '\\' && cb == '\\' {
        } else if ca == '"' || ca == '\\' || cb == '"' || cb == '\\' {
            assert(wa[1] == wb[1]);
            assert(false);
        } else {
            // both controls: the two hex digits pin the code point
            let va = ca as u32;
            let vb = cb as u32;
            assert(wa[4] == spec_hex_char(va / 16) && wa[5] == spec_hex_char(va % 16));
            assert(wb[4] == spec_hex_char(vb / 16) && wb[5] == spec_hex_char(vb % 16));
            lemma_hex_char_injective(va / 16, vb / 16);
            lemma_hex_char_injective(va % 16, vb % 16);
            assert(va == (va / 16) * 16 + va % 16) by (nonlinear_arith);
            assert(vb == (vb / 16) * 16 + vb % 16) by (nonlinear_arith);
            assert(va == vb);
            assert(ca == cb);
        }
    }
}

} // verus!
