//! Numbers as decimal text: reading them from bytes and writing them.

use vstd::prelude::*;

verus! {

/// Whether a byte is an ASCII decimal digit.
pub open spec fn is_digit(byte: u8) -> bool {
    0x30 <= byte <= 0x39
}

/// The number that decimal digits name; no digits name zero.
pub open spec fn decimal_value(digits: Seq<u8>) -> nat
    decreases digits.len(),
{
    if digits.len() == 0 {
        0
    } else {
        decimal_value(digits.drop_last()) * 10 + (digits.last() - 0x30) as nat
    }
}

/// The decimal digits of a number, without leading zeros.
pub open spec fn decimal_digits(n: nat) -> Seq<u8>
    decreases n,
{
    if n < 10 {
        seq![(0x30 + n) as u8]
    } else {
        decimal_digits(n / 10).push((0x30 + n % 10) as u8)
    }
}

/// A number as decimal text, with a minus sign before a negative one.
pub open spec fn signed_decimal_digits(v: int) -> Seq<u8> {
    if v < 0 {
        seq![0x2Du8] + decimal_digits((-v) as nat)
    } else {
        decimal_digits(v as nat)
    }
}

/// The place after the digits that start at `pos`: the first place from
/// `pos` on that holds no digit.
pub open spec fn digit_run_end(bytes: Seq<u8>, pos: int) -> int
    decreases bytes.len() - pos,
{
    if 0 <= pos < bytes.len() && is_digit(bytes[pos]) {
        digit_run_end(bytes, pos + 1)
    } else {
        pos
    }
}

/// The digits of a number are digits, there is at least one, and they name
/// the number.
pub proof fn lemma_decimal_digits(n: nat)
    ensures
        decimal_digits(n).len() >= 1,
        forall|i: int| 0 <= i < decimal_digits(n).len() ==> is_digit(#[trigger] decimal_digits(n)[i]),
        decimal_value(decimal_digits(n)) == n,
    decreases n,
{
    if n < 10 {
        let d = decimal_digits(n);
        assert(d.drop_last() =~= Seq::<u8>::empty());
        assert(decimal_value(d.drop_last()) == 0);
    } else {
        lemma_decimal_digits(n / 10);
        let d = decimal_digits(n);
        assert(d.drop_last() =~= decimal_digits(n / 10));
    }
}

/// The run of digits that starts at `pos` ends in the text, holds only
/// digits, and no digit follows it.
pub proof fn lemma_digit_run_end(bytes: Seq<u8>, pos: int)
    requires
        0 <= pos <= bytes.len(),
    ensures
        pos <= digit_run_end(bytes, pos) <= bytes.len(),
        forall|i: int| pos <= i < digit_run_end(bytes, pos) ==> is_digit(bytes[i]),
        digit_run_end(bytes, pos) < bytes.len() ==> !is_digit(bytes[digit_run_end(bytes, pos)]),
    decreases bytes.len() - pos,
{
    if pos < bytes.len() && is_digit(bytes[pos]) {
        lemma_digit_run_end(bytes, pos + 1);
    }
}

/// Digits that are followed by what is no digit are read back whole: the
/// run of digits at the start of `digits + rest` is `digits`.
pub proof fn lemma_digit_run_of_digits(digits: Seq<u8>, rest: Seq<u8>, pos: int)
    requires
        0 <= pos <= digits.len(),
        forall|i: int| 0 <= i < digits.len() ==> is_digit(digits[i]),
        rest.len() == 0 || !is_digit(rest[0]),
    ensures
        digit_run_end(digits + rest, pos) == digits.len(),
    decreases digits.len() - pos,
{
    let all = digits + rest;
    if pos < digits.len() {
        assert(all[pos] == digits[pos]);
        lemma_digit_run_of_digits(digits, rest, pos + 1);
    } else if rest.len() > 0 {
        assert(all[pos] == rest[0]);
    }
}

/// Reads the decimal number that starts at `pos`. Gives the place after
/// its digits, and the number where there is a digit and the number fits
/// in 32 bits.
pub fn read_u32(bytes: &[u8], pos: usize) -> (r: (Option<u32>, usize))
    requires
        pos <= bytes@.len(),
    ensures
        r.1 == digit_run_end(bytes@, pos as int),
        pos <= r.1 <= bytes@.len(),
        r.0 is Some <==> r.1 > pos && decimal_value(bytes@.subrange(pos as int, r.1 as int))
            <= 0xFFFF_FFFF,
        r.0 is Some ==> r.0->0 == decimal_value(bytes@.subrange(pos as int, r.1 as int)),
{
    let n: usize = bytes.len();
    let mut i: usize = pos;
    let mut v: u64 = 0;
    let mut fits: bool = true;
    assert(decimal_value(bytes@.subrange(pos as int, pos as int)) == 0);
    while i < n && 0x30 <= bytes[i] && bytes[i] <= 0x39
        invariant
            pos <= i <= n,
            n == bytes@.len(),
            digit_run_end(bytes@, i as int) == digit_run_end(bytes@, pos as int),
            fits ==> v == decimal_value(bytes@.subrange(pos as int, i as int)) && v
                <= 0xFFFF_FFFF,
            !fits ==> decimal_value(bytes@.subrange(pos as int, i as int)) > 0xFFFF_FFFF,
        decreases n - i,
    {
        let d: u64 = (bytes[i] - 0x30) as u64;
        proof {
            let next = bytes@.subrange(pos as int, i + 1);
            assert(next.drop_last() =~= bytes@.subrange(pos as int, i as int));
            assert(next.last() == bytes@[i as int]);
        }
        if fits {
            v = v * 10 + d;
            if v > 0xFFFF_FFFF {
                fits = false;
            }
        }
        i = i + 1;
    }
    if i > pos && fits {
        (Some(v as u32), i)
    } else {
        (None, i)
    }
}

/// The place after a signed decimal number that starts at `pos`: after
/// the digits that follow a minus sign, if one stands at `pos`.
pub open spec fn signed_run_end(bytes: Seq<u8>, pos: int) -> int {
    if 0 <= pos < bytes.len() && bytes[pos] == 0x2D {
        digit_run_end(bytes, pos + 1)
    } else {
        digit_run_end(bytes, pos)
    }
}

/// The number that signed decimal text names.
pub open spec fn signed_decimal_value(text: Seq<u8>) -> int {
    if text.len() > 0 && text[0] == 0x2D {
        -(decimal_value(text.drop_first()) as int)
    } else {
        decimal_value(text) as int
    }
}

/// Whether signed decimal text has a digit.
pub open spec fn has_digit(text: Seq<u8>) -> bool {
    if text.len() > 0 && text[0] == 0x2D {
        text.len() > 1
    } else {
        text.len() > 0
    }
}

/// Reads the signed decimal number that starts at `pos`. Gives the place
/// after it, and the number where there is a digit and the number fits in
/// 32 bits with a sign.
pub fn read_i32(bytes: &[u8], pos: usize) -> (r: (Option<i32>, usize))
    requires
        pos <= bytes@.len(),
    ensures
        r.1 == signed_run_end(bytes@, pos as int),
        pos <= r.1 <= bytes@.len(),
        r.0 is Some <==> has_digit(bytes@.subrange(pos as int, r.1 as int)) && -0x8000_0000
            <= signed_decimal_value(bytes@.subrange(pos as int, r.1 as int)) <= 0x7FFF_FFFF,
        r.0 is Some ==> r.0->0 == signed_decimal_value(bytes@.subrange(pos as int, r.1 as int)),
{
    if pos < bytes.len() && bytes[pos] == 0x2D {
        let (magnitude, end) = read_u32(bytes, pos + 1);
        proof {
            let text = bytes@.subrange(pos as int, end as int);
            assert(text.drop_first() =~= bytes@.subrange(pos + 1, end as int));
            assert(text[0] == 0x2D);
        }
        match magnitude {
            Some(m) => {
                if m <= 0x8000_0000 {
                    (Some((-(m as i64)) as i32), end)
                } else {
                    (None, end)
                }
            },
            None => (None, end),
        }
    } else {
        let (magnitude, end) = read_u32(bytes, pos);
        proof {
            let text = bytes@.subrange(pos as int, end as int);
            lemma_digit_run_end(bytes@, pos as int);
            if text.len() > 0 {
                assert(text[0] == bytes@[pos as int]);
            }
        }
        match magnitude {
            Some(m) => {
                if m <= 0x7FFF_FFFF {
                    (Some(m as i32), end)
                } else {
                    (None, end)
                }
            },
            None => (None, end),
        }
    }
}

/// Writes a number in decimal.
pub fn write_u32(out: &mut Vec<u8>, n: u32)
    ensures
        final(out)@ == old(out)@ + decimal_digits(n as nat),
        all_ascii(old(out)@) ==> all_ascii(final(out)@),
    decreases n,
{
    if n >= 10 {
        write_u32(out, n / 10);
    }
    out.push(0x30 + (n % 10) as u8);
    assert(out@ =~= old(out)@ + decimal_digits(n as nat));
}

/// Writes a number in decimal, with a minus sign before a negative one.
pub fn write_i32(out: &mut Vec<u8>, v: i32)
    ensures
        final(out)@ == old(out)@ + signed_decimal_digits(v as int),
        all_ascii(old(out)@) ==> all_ascii(final(out)@),
{
    if v < 0 {
        out.push(0x2D);
        let magnitude: u32 = (-(v as i64)) as u32;
        write_u32(out, magnitude);
        assert(out@ =~= old(out)@ + signed_decimal_digits(v as int));
    } else {
        write_u32(out, v as u32);
    }
}

/// Writes the bytes of `text`.
pub fn write_bytes(out: &mut Vec<u8>, text: &[u8])
    ensures
        final(out)@ == old(out)@ + text@,
        all_ascii(old(out)@) && all_ascii(text@) ==> all_ascii(final(out)@),
{
    let mut i: usize = 0;
    while i < text.len()
        invariant
            i <= text@.len(),
            out@ == old(out)@ + text@.subrange(0, i as int),
            all_ascii(old(out)@) && all_ascii(text@) ==> all_ascii(out@),
        decreases text@.len() - i,
    {
        out.push(text[i]);
        i = i + 1;
        assert(out@ =~= old(out)@ + text@.subrange(0, i as int));
    }
    assert(text@.subrange(0, i as int) =~= text@);
}

/// Whether a byte is an ASCII hexadecimal digit.
pub open spec fn is_hex_digit(byte: u8) -> bool {
    (0x30 <= byte <= 0x39) || (0x41 <= byte <= 0x46) || (0x61 <= byte <= 0x66)
}

/// The number of a hexadecimal digit.
pub open spec fn hex_digit_value(byte: u8) -> nat {
    if 0x30 <= byte <= 0x39 {
        (byte - 0x30) as nat
    } else if 0x41 <= byte <= 0x46 {
        (byte - 0x41 + 10) as nat
    } else {
        (byte - 0x61 + 10) as nat
    }
}

/// The number that hexadecimal digits name; no digits name zero.
pub open spec fn hex_value(digits: Seq<u8>) -> nat
    decreases digits.len(),
{
    if digits.len() == 0 {
        0
    } else {
        hex_value(digits.drop_last()) * 16 + hex_digit_value(digits.last())
    }
}

/// Whether all bytes are hexadecimal digits.
pub open spec fn all_hex_digits(digits: Seq<u8>) -> bool {
    forall|i: int| 0 <= i < digits.len() ==> is_hex_digit(#[trigger] digits[i])
}

/// Reads the bytes from `pos` to the end as one hexadecimal number. Gives
/// the number where there is a digit, all bytes are digits, and the number
/// fits in 32 bits.
pub fn read_hex_u32(bytes: &[u8], pos: usize) -> (r: Option<u32>)
    requires
        pos <= bytes@.len(),
    ensures
        r is Some <==> pos < bytes@.len() && all_hex_digits(
            bytes@.subrange(pos as int, bytes@.len() as int),
        ) && hex_value(bytes@.subrange(pos as int, bytes@.len() as int)) <= 0xFFFF_FFFF,
        r is Some ==> r->0 == hex_value(bytes@.subrange(pos as int, bytes@.len() as int)),
{
    let n: usize = bytes.len();
    if pos == n {
        return None;
    }
    let mut i: usize = pos;
    let mut v: u64 = 0;
    let mut fits: bool = true;
    assert(hex_value(bytes@.subrange(pos as int, pos as int)) == 0);
    while i < n
        invariant
            pos <= i <= n,
            n == bytes@.len(),
            all_hex_digits(bytes@.subrange(pos as int, i as int)),
            fits ==> v == hex_value(bytes@.subrange(pos as int, i as int)) && v <= 0xFFFF_FFFF,
            !fits ==> hex_value(bytes@.subrange(pos as int, i as int)) > 0xFFFF_FFFF,
        decreases n - i,
    {
        let b: u8 = bytes[i];
        let d: u64 = if 0x30 <= b && b <= 0x39 {
            (b - 0x30) as u64
        } else if 0x41 <= b && b <= 0x46 {
            (b - 0x41 + 10) as u64
        } else if 0x61 <= b && b <= 0x66 {
            (b - 0x61 + 10) as u64
        } else {
            proof {
                let whole = bytes@.subrange(pos as int, n as int);
                assert(whole[i - pos] == b);
            }
            return None;
        };
        proof {
            let next = bytes@.subrange(pos as int, i + 1);
            assert(next.drop_last() =~= bytes@.subrange(pos as int, i as int));
            assert(next.last() == b);
            assert forall|k: int| 0 <= k < next.len() implies is_hex_digit(#[trigger] next[k]) by {
                if k < next.len() - 1 {
                    assert(next[k] == bytes@.subrange(pos as int, i as int)[k]);
                }
            }
        }
        if fits {
            v = v * 16 + d;
            if v > 0xFFFF_FFFF {
                fits = false;
            }
        }
        i = i + 1;
    }
    if fits {
        Some(v as u32)
    } else {
        None
    }
}

/// Whether all bytes are ASCII.
pub open spec fn all_ascii(bytes: Seq<u8>) -> bool {
    forall|i: int| 0 <= i < bytes.len() ==> #[trigger] bytes[i] < 0x80
}

/// The characters of ASCII bytes.
pub open spec fn ascii_chars(bytes: Seq<u8>) -> Seq<char> {
    Seq::new(bytes.len(), |i: int| bytes[i] as char)
}

/// ASCII bytes are well-formed UTF-8, and encode the characters of their
/// own numbers.
pub proof fn lemma_ascii_is_utf8(bytes: Seq<u8>)
    requires
        all_ascii(bytes),
    ensures
        vstd::utf8::valid_utf8(bytes),
        vstd::utf8::decode_utf8(bytes) == ascii_chars(bytes),
{
    let chars = ascii_chars(bytes);
    assert(vstd::utf8::is_ascii_chars(chars)) by {
        assert forall|i: int| 0 <= i < chars.len() implies 0 <= #[trigger] (chars[i] as nat)
            < 128 by {
            assert(bytes[i] < 0x80);
        }
    }
    vstd::utf8::is_ascii_chars_encode_utf8(chars);
    assert(vstd::utf8::encode_utf8(chars) =~= bytes) by {
        assert forall|i: int| 0 <= i < bytes.len() implies vstd::utf8::encode_utf8(chars)[i]
            == bytes[i] by {
            assert(bytes[i] < 0x80);
        }
    }
    vstd::utf8::encode_utf8_valid_utf8(chars);
    vstd::utf8::encode_utf8_decode_utf8(chars);
}

/// A kind of byte of which a run is read.
#[derive(Clone, Copy, Debug, PartialEq, Eq, Structural)]
pub enum ByteClass {
    /// White space: a space, a tab, a line feed, a vertical tab, a form
    /// feed or a carriage return.
    Space,
    /// What a name is made of: a letter, a digit, `_`, `.` or `-`.
    Name,
}

/// Whether a byte is of a kind.
pub open spec fn in_class(byte: u8, class: ByteClass) -> bool {
    match class {
        ByteClass::Space => byte == 0x20 || (0x09 <= byte <= 0x0D),
        ByteClass::Name => (0x30 <= byte <= 0x39) || (0x41 <= byte <= 0x5A) || (0x61 <= byte
            <= 0x7A) || byte == 0x5F || byte == 0x2E || byte == 0x2D,
    }
}

/// The place after the bytes of a kind that start at `pos`.
pub open spec fn class_run_end(bytes: Seq<u8>, pos: int, class: ByteClass) -> int
    decreases bytes.len() - pos,
{
    if 0 <= pos < bytes.len() && in_class(bytes[pos], class) {
        class_run_end(bytes, pos + 1, class)
    } else {
        pos
    }
}

/// The run of bytes of a kind that starts at `pos` ends in the text.
pub proof fn lemma_class_run_end(bytes: Seq<u8>, pos: int, class: ByteClass)
    requires
        0 <= pos <= bytes.len(),
    ensures
        pos <= class_run_end(bytes, pos, class) <= bytes.len(),
    decreases bytes.len() - pos,
{
    if pos < bytes.len() && in_class(bytes[pos], class) {
        lemma_class_run_end(bytes, pos + 1, class);
    }
}

/// Bytes of a kind that are followed by a byte of another kind, or by
/// nothing, are read back whole.
pub proof fn lemma_class_run_of_prefix(prefix: Seq<u8>, rest: Seq<u8>, pos: int, class: ByteClass)
    requires
        0 <= pos <= prefix.len(),
        forall|i: int| 0 <= i < prefix.len() ==> in_class(prefix[i], class),
        rest.len() == 0 || !in_class(rest[0], class),
    ensures
        class_run_end(prefix + rest, pos, class) == prefix.len(),
    decreases prefix.len() - pos,
{
    let all = prefix + rest;
    if pos < prefix.len() {
        assert(all[pos] == prefix[pos]);
        lemma_class_run_of_prefix(prefix, rest, pos + 1, class);
    } else if rest.len() > 0 {
        assert(all[pos] == rest[0]);
    }
}

/// Counts the bytes of a kind at the start of a text.
pub fn count_leading(bytes: &[u8], class: ByteClass) -> (n: usize)
    ensures
        n == class_run_end(bytes@, 0, class),
        n <= bytes@.len(),
{
    let mut i: usize = 0;
    while i < bytes.len() && is_in_class(bytes[i], class)
        invariant
            i <= bytes@.len(),
            class_run_end(bytes@, i as int, class) == class_run_end(bytes@, 0, class),
        decreases bytes@.len() - i,
    {
        i = i + 1;
    }
    i
}

/// Whether a byte is of a kind.
pub fn is_in_class(byte: u8, class: ByteClass) -> (is: bool)
    ensures
        is == in_class(byte, class),
{
    match class {
        ByteClass::Space => byte == 0x20 || (0x09 <= byte && byte <= 0x0D),
        ByteClass::Name => (0x30 <= byte && byte <= 0x39) || (0x41 <= byte && byte <= 0x5A) || (
        0x61 <= byte && byte <= 0x7A) || byte == 0x5F || byte == 0x2E || byte == 0x2D,
    }
}

/// A signed number that is followed by what is no digit is read back
/// whole, and names the number.
pub proof fn lemma_signed_digits_read_back(v: int, rest: Seq<u8>)
    requires
        rest.len() == 0 || !is_digit(rest[0]),
    ensures
        signed_run_end(signed_decimal_digits(v) + rest, 0) == signed_decimal_digits(v).len(),
        has_digit(signed_decimal_digits(v)),
        signed_decimal_value(signed_decimal_digits(v)) == v,
        signed_decimal_digits(v).len() > 0,
        signed_decimal_digits(v)[0] == 0x2D || is_digit(signed_decimal_digits(v)[0]),
{
    let text = signed_decimal_digits(v);
    let all = text + rest;
    if v < 0 {
        let digits = decimal_digits((-v) as nat);
        lemma_decimal_digits((-v) as nat);
        assert(text.drop_first() =~= digits);
        assert(all[0] == 0x2D);
        // the digits after the sign, seen from place 1 of the whole text
        lemma_digit_run_shift(seq![0x2Du8], digits + rest, 0);
        assert(seq![0x2Du8] + (digits + rest) =~= all);
        lemma_digit_run_of_digits(digits, rest, 0);
    } else {
        let digits = decimal_digits(v as nat);
        lemma_decimal_digits(v as nat);
        assert(is_digit(text[0]));
        lemma_digit_run_of_digits(digits, rest, 0);
    }
}

/// The run of digits at a place of a text is the run at the same place of
/// the text without what stands before it.
pub proof fn lemma_digit_run_shift(prefix: Seq<u8>, text: Seq<u8>, pos: int)
    requires
        0 <= pos <= text.len(),
    ensures
        digit_run_end(prefix + text, prefix.len() + pos) == prefix.len() + digit_run_end(
            text,
            pos,
        ),
    decreases text.len() - pos,
{
    let all = prefix + text;
    if pos < text.len() {
        assert(all[prefix.len() + pos] == text[pos]);
        if is_digit(text[pos]) {
            lemma_digit_run_shift(prefix, text, pos + 1);
        }
    }
}

/// Whether two runs of bytes are the same.
pub fn same_bytes(a: &[u8], b: &[u8]) -> (same: bool)
    ensures
        same == (a@ == b@),
{
    if a.len() != b.len() {
        return false;
    }
    let mut i: usize = 0;
    while i < a.len()
        invariant
            i <= a@.len(),
            a@.len() == b@.len(),
            forall|k: int| 0 <= k < i ==> a@[k] == b@[k],
        decreases a@.len() - i,
    {
        if a[i] != b[i] {
            return false;
        }
        i = i + 1;
    }
    assert(a@ =~= b@);
    true
}

} // verus!
