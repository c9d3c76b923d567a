//! Texts as sequences of bytes: where a byte stands in a text, and the
//! numbers that digits spell.

use vstd::prelude::*;
use vstd::string::StringSliceAdditionalSpecFns;
use crate::errors::ParseIntError;

verus! {

/// The place of the first `b` in `s`, or the length of `s` where there is
/// none.
pub open spec fn index_of(s: Seq<u8>, b: u8) -> int
    decreases s.len(),
{
    if s.len() == 0 || s[0] == b {
        0
    } else {
        1 + index_of(s.skip(1), b)
    }
}

/// The place of the last `b` in `s`, or -1 where there is none.
pub open spec fn last_index_of(s: Seq<u8>, b: u8) -> int
    decreases s.len(),
{
    if s.len() == 0 {
        -1
    } else if s.last() == b {
        s.len() - 1
    } else {
        last_index_of(s.drop_last(), b)
    }
}

/// The first `b` in `s` is where `index_of` says, and only there.
pub proof fn lemma_index_of(s: Seq<u8>, b: u8)
    ensures
        0 <= index_of(s, b) <= s.len(),
        forall|j: int| 0 <= j < index_of(s, b) ==> s[j] != b,
        index_of(s, b) < s.len() ==> s[index_of(s, b)] == b,
    decreases s.len(),
{
    if s.len() == 0 || s[0] == b {
    } else {
        lemma_index_of(s.skip(1), b);
        assert forall|j: int| 0 <= j < index_of(s, b) implies s[j] != b by {
            if j > 0 {
                assert(s.skip(1)[j - 1] == s[j]);
            }
        }
    }
}

/// A place before which there is no `b`, and at which there is one or the
/// text ends, is the place of the first `b`.
pub proof fn lemma_index_of_is(s: Seq<u8>, b: u8, k: int)
    requires
        0 <= k <= s.len(),
        forall|j: int| 0 <= j < k ==> s[j] != b,
        k < s.len() ==> s[k] == b,
    ensures
        index_of(s, b) == k,
    decreases s.len(),
{
    if s.len() == 0 || s[0] == b {
    } else {
        assert forall|j: int| 0 <= j < k - 1 implies s.skip(1)[j] != b by {
            assert(s.skip(1)[j] == s[j + 1]);
        }
        lemma_index_of_is(s.skip(1), b, k - 1);
    }
}

/// The last `b` in `s` is where `last_index_of` says, and only there.
pub proof fn lemma_last_index_of(s: Seq<u8>, b: u8)
    ensures
        -1 <= last_index_of(s, b) < s.len(),
        forall|j: int| last_index_of(s, b) < j < s.len() ==> s[j] != b,
        0 <= last_index_of(s, b) ==> s[last_index_of(s, b)] == b,
    decreases s.len(),
{
    if s.len() == 0 || s.last() == b {
    } else {
        lemma_last_index_of(s.drop_last(), b);
        assert forall|j: int| last_index_of(s, b) < j < s.len() implies s[j] != b by {
            if j < s.len() - 1 {
                assert(s.drop_last()[j] == s[j]);
            }
        }
    }
}

/// A place after which there is no `b`, and at which there is one or
/// which is -1, is the place of the last `b`.
pub proof fn lemma_last_index_of_is(s: Seq<u8>, b: u8, k: int)
    requires
        -1 <= k < s.len(),
        forall|j: int| k < j < s.len() ==> s[j] != b,
        0 <= k ==> s[k] == b,
    ensures
        last_index_of(s, b) == k,
    decreases s.len(),
{
    if s.len() == 0 || s.last() == b {
    } else {
        assert forall|j: int| k < j < s.len() - 1 implies s.drop_last()[j] != b by {
            assert(s.drop_last()[j] == s[j]);
        }
        lemma_last_index_of_is(s.drop_last(), b, k);
    }
}

/// The place of the first `b` in `bytes` from `from` up to `to`, or `to`
/// where there is none.
pub fn find_byte(bytes: &[u8], from: usize, to: usize, b: u8) -> (at: usize)
    requires
        from <= to <= bytes@.len(),
    ensures
        at == from + index_of(bytes@.subrange(from as int, to as int), b),
        from <= at <= to,
        at < to ==> bytes@[at as int] == b,
{
    let mut i = from;
    while i < to && bytes[i] != b
        invariant
            from <= i <= to <= bytes@.len(),
            forall|j: int| from <= j < i ==> bytes@[j] != b,
        decreases to - i,
    {
        i += 1;
    }
    proof {
        lemma_index_of_is(bytes@.subrange(from as int, to as int), b, i - from);
    }
    i
}

/// The place of the last `b` in `bytes`, if there is one.
pub fn rfind_byte(bytes: &[u8], b: u8) -> (at: Option<usize>)
    ensures
        at is None <==> last_index_of(bytes@, b) == -1,
        at is Some ==> at->Some_0 == last_index_of(bytes@, b),
        at is Some ==> at->Some_0 < bytes@.len() && bytes@[at->Some_0 as int] == b,
{
    let mut i = bytes.len();
    while i > 0
        invariant
            i <= bytes@.len(),
            forall|j: int| i <= j < bytes@.len() ==> bytes@[j] != b,
        decreases i,
    {
        i -= 1;
        if bytes[i] == b {
            proof {
                lemma_last_index_of_is(bytes@, b, i as int);
            }
            return Some(i);
        }
    }
    proof {
        lemma_last_index_of_is(bytes@, b, -1);
    }
    None
}

/// The text before and the text after the byte at `at`, which is one of
/// the first 128 characters.
pub fn split_around(s: &str, at: usize) -> (r: (&str, &str))
    requires
        at < s.spec_bytes().len(),
        s.spec_bytes()[at as int] < 0x80,
    ensures
        r.0.spec_bytes() == s.spec_bytes().take(at as int),
        r.1.spec_bytes() == s.spec_bytes().skip(at + 1),
{
    let ghost bytes = s.spec_bytes();
    proof {
        vstd::utf8::encode_utf8_valid_utf8(s@);
        vstd::utf8::is_char_boundary_iff_not_is_continuation_byte(bytes, at as int);
    }
    let (head, rest) = s.split_at(at);
    proof {
        let after = rest.spec_bytes();
        vstd::utf8::encode_utf8_valid_utf8(rest@);
        assert(after[0] == bytes[at as int]);
        assert(vstd::utf8::pop_first_scalar(after) =~= after.subrange(1, after.len() as int));
        reveal_with_fuel(vstd::utf8::is_char_boundary, 2);
        reveal_with_fuel(vstd::utf8::valid_utf8, 2);
        assert(vstd::utf8::is_char_boundary(after, 1));
    }
    let (_, tail) = rest.split_at(1);
    proof {
        assert(head.spec_bytes() =~= bytes.take(at as int));
        assert(tail.spec_bytes() =~= bytes.skip(at + 1));
    }
    (head, tail)
}

/// Whether two sequences of bytes are the same.
pub fn bytes_equal(a: &[u8], b: &[u8]) -> (same: bool)
    ensures
        same == (a@ == b@),
{
    if a.len() != b.len() {
        return false;
    }
    let mut i: usize = 0;
    while i < a.len()
        invariant
            i <= a.len(),
            a.len() == b.len(),
            forall|j: int| 0 <= j < i ==> a@[j] == b@[j],
        decreases a.len() - i,
    {
        if a[i] != b[i] {
            return false;
        }
        i += 1;
    }
    proof {
        assert(a@ =~= b@);
    }
    true
}

/// Whether two texts are the same.
pub fn text_equal(a: &str, b: &str) -> (same: bool)
    ensures
        same == (a.spec_bytes() == b.spec_bytes()),
{
    bytes_equal(a.as_bytes(), b.as_bytes())
}

/// The value of a digit of the given radix (at most 16), if the byte is
/// one: `0` to `9`, then `a` to `f` or `A` to `F`.
pub open spec fn digit_value(b: u8, radix: nat) -> Option<nat> {
    let v: nat = if 0x30 <= b <= 0x39 {
        (b - 0x30) as nat
    } else if 0x61 <= b <= 0x66 {
        (b - 0x61 + 10) as nat
    } else if 0x41 <= b <= 0x46 {
        (b - 0x41 + 10) as nat
    } else {
        16
    };
    if v < radix {
        Some(v)
    } else {
        None
    }
}

/// The value of a digit of the given radix, if the byte is one.
pub fn to_digit(b: u8, radix: u32) -> (v: Option<u32>)
    requires
        radix <= 16,
    ensures
        v is Some <==> digit_value(b, radix as nat) is Some,
        v is Some ==> v->Some_0 == digit_value(b, radix as nat)->Some_0,
        v is Some ==> v->Some_0 < radix,
{
    let v: u32 = if 0x30 <= b && b <= 0x39 {
        (b - 0x30) as u32
    } else if 0x61 <= b && b <= 0x66 {
        (b - 0x61 + 10) as u32
    } else if 0x41 <= b && b <= 0x46 {
        (b - 0x41 + 10) as u32
    } else {
        16
    };
    if v < radix {
        Some(v)
    } else {
        None
    }
}

/// What reading a number below `limit` from digits of the radix gives,
/// going from the left with `acc` in hand: the number, or the first thing
/// that is wrong.
pub open spec fn read_digits(s: Seq<u8>, radix: nat, limit: nat, acc: nat) -> Result<
    nat,
    ParseIntError,
>
    decreases s.len(),
{
    if s.len() == 0 {
        Ok(acc)
    } else if digit_value(s[0], radix) is None {
        Err(ParseIntError::InvalidDigit)
    } else if acc * radix + digit_value(s[0], radix)->Some_0 >= limit {
        Err(ParseIntError::PosOverflow)
    } else {
        read_digits(s.skip(1), radix, limit, acc * radix + digit_value(s[0], radix)->Some_0)
    }
}

/// What a text is as a number below `limit` in the given radix: an
/// optional `+`, then digits.  Leading zeros do not matter.  Of several
/// things that are wrong, the first from the left is reported.
pub open spec fn parse_number(s: Seq<u8>, radix: nat, limit: nat) -> Result<nat, ParseIntError> {
    if s.len() == 0 {
        Err(ParseIntError::Empty)
    } else if s.len() == 1 && (s[0] == 0x2b || s[0] == 0x2d) {
        Err(ParseIntError::InvalidDigit)
    } else if s[0] == 0x2b {
        read_digits(s.skip(1), radix, limit, 0)
    } else {
        read_digits(s, radix, limit, 0)
    }
}

/// What the bytes from `from` to `to` are as a number below `limit` in the
/// given radix.
pub fn parse_number_in(bytes: &[u8], from: usize, to: usize, radix: u32, limit: u64) -> (r: Result<
    u64,
    ParseIntError,
>)
    requires
        from <= to <= bytes@.len(),
        2 <= radix <= 16,
        limit <= 0x1_0000_0000,
    ensures
        match parse_number(bytes@.subrange(from as int, to as int), radix as nat, limit as nat) {
            Ok(n) => r == Ok::<u64, ParseIntError>(n as u64) && n < limit,
            Err(e) => r == Err::<u64, _>(e),
        },
{
    let ghost s = bytes@.subrange(from as int, to as int);
    if from == to {
        return Err(ParseIntError::Empty);
    }
    if to - from == 1 && (bytes[from] == 0x2b || bytes[from] == 0x2d) {
        return Err(ParseIntError::InvalidDigit);
    }
    let start = if bytes[from] == 0x2b {
        from + 1
    } else {
        from
    };
    let ghost digits = bytes@.subrange(start as int, to as int);
    proof {
        if bytes[from as int] == 0x2b {
            assert(s.skip(1) =~= digits);
        } else {
            assert(s =~= digits);
        }
    }
    let mut acc: u64 = 0;
    let mut i = start;
    while i < to
        invariant
            start <= i <= to <= bytes@.len(),
            2 <= radix <= 16,
            limit <= 0x1_0000_0000,
            i > start ==> acc < limit,
            i == start ==> acc == 0,
            read_digits(digits, radix as nat, limit as nat, 0) == read_digits(
                bytes@.subrange(i as int, to as int),
                radix as nat,
                limit as nat,
                acc as nat,
            ),
            digits == bytes@.subrange(start as int, to as int),
            start < to,
            from <= start,
            s == bytes@.subrange(from as int, to as int),
            parse_number(s, radix as nat, limit as nat) == read_digits(
                digits,
                radix as nat,
                limit as nat,
                0,
            ),
        decreases to - i,
    {
        let ghost rest = bytes@.subrange(i as int, to as int);
        proof {
            assert(rest[0] == bytes@[i as int]);
            assert(rest.skip(1) =~= bytes@.subrange(i + 1, to as int));
        }
        let d = match to_digit(bytes[i], radix) {
            Some(d) => d,
            None => {
                return Err(ParseIntError::InvalidDigit);
            },
        };
        assert(acc * radix + d < 0x1_0000_0000 * 16 + 16) by (nonlinear_arith)
            requires
                acc <= 0x1_0000_0000,
                radix <= 16,
                d < 16,
        ;
        let next = acc * (radix as u64) + (d as u64);
        if next >= limit {
            return Err(ParseIntError::PosOverflow);
        }
        acc = next;
        i += 1;
    }
    proof {
        assert(bytes@.subrange(to as int, to as int).len() == 0);
    }
    Ok(acc)
}

/// The digit with the value `d`, which is below 16: `0` to `9`, then `a`
/// to `f`.
pub open spec fn digit_of(d: nat) -> u8 {
    if d < 10 {
        (0x30 + d) as u8
    } else {
        (0x61 + d - 10) as u8
    }
}

/// The text of a number in decimal: its digits, the most significant
/// first, without leading zeros but for the number zero.
pub open spec fn decimal_text(n: nat) -> Seq<u8>
    decreases n,
{
    if n < 10 {
        seq![digit_of(n)]
    } else {
        decimal_text(n / 10).push(digit_of(n % 10))
    }
}

/// The text of a number in hexadecimal: its digits, the most significant
/// first, without leading zeros but for the number zero.
pub open spec fn hex_text(n: nat) -> Seq<u8>
    decreases n,
{
    if n < 16 {
        seq![digit_of(n)]
    } else {
        hex_text(n / 16).push(digit_of(n % 16))
    }
}

/// The text of a number is made of characters below 128.
pub proof fn lemma_number_text_ascii(n: nat)
    ensures
        is_ascii_text(decimal_text(n)),
        is_ascii_text(hex_text(n)),
        decimal_text(n).len() >= 1,
        hex_text(n).len() >= 1,
    decreases n,
{
    if n >= 10 {
        lemma_number_text_ascii(n / 10);
    }
    if n >= 16 {
        lemma_number_text_ascii(n / 16);
    }
}

/// Whether all the bytes are characters of their own: below 128.
pub open spec fn is_ascii_text(s: Seq<u8>) -> bool {
    forall|j: int| 0 <= j < s.len() ==> #[trigger] s[j] < 0x80
}

/// The characters that bytes below 128 are.
pub open spec fn as_chars(s: Seq<u8>) -> Seq<char> {
    s.map_values(|b: u8| b as char)
}

/// Writes the text of a number in decimal at the end of `out`.
pub fn push_decimal(out: &mut Vec<u8>, n: u128)
    ensures
        final(out)@ == old(out)@ + decimal_text(n as nat),
    decreases n,
{
    if n >= 10 {
        push_decimal(out, n / 10);
    }
    let d = (n % 10) as u8;
    out.push(0x30 + d);
    proof {
        assert(final(out)@ =~= old(out)@ + decimal_text(n as nat));
    }
}

/// Writes the text of a number in hexadecimal at the end of `out`.
pub fn push_hex(out: &mut Vec<u8>, n: u128)
    ensures
        final(out)@ == old(out)@ + hex_text(n as nat),
    decreases n,
{
    if n >= 16 {
        push_hex(out, n / 16);
    }
    let d = (n % 16) as u8;
    let digit = if d < 10 {
        0x30 + d
    } else {
        0x61 + (d - 10)
    };
    out.push(digit);
    proof {
        assert(final(out)@ =~= old(out)@ + hex_text(n as nat));
    }
}

/// Writes the bytes of a text at the end of `out`.
pub fn push_text(out: &mut Vec<u8>, text: &str)
    ensures
        final(out)@ == old(out)@ + text.spec_bytes(),
{
    let bytes = text.as_bytes();
    let mut i: usize = 0;
    while i < bytes.len()
        invariant
            i <= bytes@.len(),
            out@ == old(out)@ + bytes@.take(i as int),
        decreases bytes@.len() - i,
    {
        out.push(bytes[i]);
        proof {
            assert(out@ =~= old(out)@ + bytes@.take(i + 1));
        }
        i += 1;
    }
    proof {
        assert(bytes@.take(bytes@.len() as int) =~= bytes@);
    }
}

/// `String::push` of the standard library: the string afterwards is the
/// string before with `ch` appended as its last character.
pub assume_specification[ String::push ](s: &mut String, ch: char)
    ensures
        final(s)@ == old(s)@.push(ch),
;

/// The text whose characters the bytes are, which are all below 128.
pub fn ascii_to_string(bytes: &Vec<u8>) -> (s: String)
    requires
        is_ascii_text(bytes@),
    ensures
        s@ == as_chars(bytes@),
{
    let mut s = String::new();
    let mut i: usize = 0;
    while i < bytes.len()
        invariant
            i <= bytes@.len(),
            is_ascii_text(bytes@),
            s@ == as_chars(bytes@.take(i as int)),
        decreases bytes@.len() - i,
    {
        s.push(bytes[i] as char);
        proof {
            assert(as_chars(bytes@.take(i + 1)) =~= as_chars(bytes@.take(i as int)).push(
                bytes@[i as int] as char,
            ));
        }
        i += 1;
    }
    proof {
        assert(bytes@.take(bytes@.len() as int) =~= bytes@);
    }
    s
}

} // verus!
