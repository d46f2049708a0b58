//! Text helpers: the decimal form of integers, and facts about UTF-8 that the
//! path contracts rest on.

use vstd::prelude::*;
use vstd::string::*;
use vstd::utf8::*;

verus! {

/// The character of a decimal digit.
pub open spec fn digit(d: nat) -> char
    recommends
        d < 10,
{
    (('0' as u32) + d) as char
}

/// The decimal digits of a natural number, most significant first, without
/// leading zeros.
pub open spec fn digits(n: nat) -> Seq<char>
    decreases n,
{
    if n < 10 {
        seq![digit(n)]
    } else {
        digits(n / 10).push(digit(n % 10))
    }
}

/// The decimal form of an integer: its digits, after a minus sign where it is
/// negative.
pub open spec fn decimal(n: int) -> Seq<char> {
    if n < 0 {
        seq!['-'] + digits((-n) as nat)
    } else {
        digits(n as nat)
    }
}

fn digit_text(d: u64) -> (s: &'static str)
    requires
        d < 10,
    ensures
        s@ == seq![digit(d as nat)],
{
    proof {
        reveal_strlit("0");
        reveal_strlit("1");
        reveal_strlit("2");
        reveal_strlit("3");
        reveal_strlit("4");
        reveal_strlit("5");
        reveal_strlit("6");
        reveal_strlit("7");
        reveal_strlit("8");
        reveal_strlit("9");
    }
    if d == 0 {
        "0"
    } else if d == 1 {
        "1"
    } else if d == 2 {
        "2"
    } else if d == 3 {
        "3"
    } else if d == 4 {
        "4"
    } else if d == 5 {
        "5"
    } else if d == 6 {
        "6"
    } else if d == 7 {
        "7"
    } else if d == 8 {
        "8"
    } else {
        "9"
    }
}

fn append_digits(out: &mut String, n: u64)
    ensures
        final(out)@ == old(out)@ + digits(n as nat),
    decreases n,
{
    if n >= 10 {
        append_digits(out, n / 10);
    }
    out.append(digit_text(n % 10));
    assert(out@ =~= old(out)@ + digits(n as nat));
}

/// Writes an unsigned integer in decimal.
pub fn unsigned_decimal(n: u64) -> (s: String)
    ensures
        s@ == decimal(n as int),
{
    let mut out = String::new();
    append_digits(&mut out, n);
    assert(out@ =~= digits(n as nat));
    out
}

/// Writes a signed integer in decimal.
pub fn signed_decimal(n: i64) -> (s: String)
    ensures
        s@ == decimal(n as int),
{
    if n < 0 {
        let mut out = String::new();
        out.append("-");
        proof {
            reveal_strlit("-");
        }
        append_digits(&mut out, (-(n as i128)) as u64);
        assert(out@ =~= decimal(n as int));
        out
    } else {
        unsigned_decimal(n as u64)
    }
}

/// The bytes of two texts, one after the other, are those of the two texts
/// joined.
pub(crate) proof fn lemma_encode_concat(a: Seq<char>, b: Seq<char>)
    ensures
        encode_utf8(a + b) == encode_utf8(a) + encode_utf8(b),
    decreases a.len(),
{
    if a.len() == 0 {
        assert(a + b =~= b);
        assert(encode_utf8(a) + encode_utf8(b) =~= encode_utf8(b));
    } else {
        lemma_encode_concat(a.drop_first(), b);
        assert((a + b).drop_first() =~= a.drop_first() + b);
        assert(encode_utf8(a + b) =~= encode_utf8(a) + encode_utf8(b));
    }
}

/// Texts with the same bytes are the same.
pub(crate) proof fn lemma_encode_injective(a: Seq<char>, b: Seq<char>)
    requires
        encode_utf8(a) == encode_utf8(b),
    ensures
        a == b,
{
    encode_utf8_decode_utf8(a);
    encode_utf8_decode_utf8(b);
}

proof fn lemma_encode_char(c: char)
    ensures
        encode_scalar(c as u32).len() > 0,
        encode_scalar(c as u32)[0] == 47 <==> c == '/',
        encode_scalar(c as u32).last() == 47 <==> c == '/',
        c == '/' ==> encode_scalar(c as u32) =~= seq![47u8],
{
    let v = c as u32;
    assert(v <= 0x7f ==> (v & 0x7f) as u8 == v) by (bit_vector);
    assert(0xC0u8 | ((v >> 6) & 0x1F) as u8 != 47) by (bit_vector);
    assert(0xE0u8 | ((v >> 12) & 0x0F) as u8 != 47) by (bit_vector);
    assert(0xF0u8 | ((v >> 18) & 0x7) as u8 != 47) by (bit_vector);
    assert(0x80u8 | (v & 0x3F) as u8 != 47) by (bit_vector);
}

/// A text begins with a slash where its bytes do.
pub(crate) proof fn lemma_encode_first(s: Seq<char>)
    requires
        s.len() > 0,
    ensures
        encode_utf8(s).len() > 0,
        encode_utf8(s)[0] == 47 <==> s[0] == '/',
{
    lemma_encode_char(s[0]);
}

/// A text ends with a slash where its bytes do.
pub(crate) proof fn lemma_encode_last(s: Seq<char>)
    requires
        s.len() > 0,
    ensures
        encode_utf8(s).len() > 0,
        encode_utf8(s).last() == 47 <==> s.last() == '/',
{
    let last = seq![s.last()];
    assert(s =~= s.drop_last() + last);
    lemma_encode_concat(s.drop_last(), last);
    lemma_encode_char(s.last());
    reveal_with_fuel(encode_utf8, 2);
    assert(last.drop_first().len() == 0);
    assert(encode_utf8(last) =~= encode_scalar(s.last() as u32));
}

/// The number that decimal digits stand for.
pub open spec fn value(text: Seq<char>) -> int
    decreases text.len(),
{
    if text.len() == 0 {
        0
    } else {
        10 * value(text.drop_last()) + (text.last() as int - 48)
    }
}

proof fn lemma_digits_read_back(n: nat)
    ensures
        value(digits(n)) == n,
        digits(n).len() > 0,
        n > 0 ==> digits(n)[0] != '0',
        forall|i: int| 0 <= i < digits(n).len() ==> '0' <= #[trigger] digits(n)[i] <= '9',
    decreases n,
{
    if n >= 10 {
        lemma_digits_read_back(n / 10);
        assert(digits(n).drop_last() =~= digits(n / 10));
    } else {
        assert(digits(n).drop_last().len() == 0);
        assert(value(digits(n).drop_last()) == 0);
    }
}

/// A number is read back from its decimal form, which is made of digits,
/// begins with a zero for zero alone, and has a minus sign before it for
/// a negative number alone.
pub proof fn law_decimal_reads_back(n: int)
    ensures
        n >= 0 ==> value(decimal(n)) == n,
        n >= 0 ==> decimal(n).len() > 0,
        n >= 0 ==> forall|i: int|
            0 <= i < decimal(n).len() ==> '0' <= #[trigger] decimal(n)[i] <= '9',
        n > 0 ==> decimal(n)[0] != '0',
        n == 0 ==> decimal(n) == seq!['0'],
        n < 0 ==> decimal(n) == seq!['-'] + decimal(-n),
{
    if n >= 0 {
        lemma_digits_read_back(n as nat);
    }
}

} // verus!
