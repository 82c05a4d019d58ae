//! Lower-case hexadecimal digits and the two-digit form of a byte.
use vstd::prelude::*;
use crate::text::push_char;

verus! {

/// The lower-case hex digit for a value below 16.
pub open spec fn hex_digit(d: u8) -> char {
    if d < 10 {
        (d + 48) as char
    } else {
        (d + 87) as char
    }
}

pub open spec fn is_hex_digit(c: char) -> bool {
    ('0' <= c && c <= '9') || ('a' <= c && c <= 'f')
}

/// The value of a hex digit (meaningful where `is_hex_digit(c)`).
pub open spec fn digit_value(c: char) -> u8 {
    if c <= '9' {
        (c as u32 - 48) as u8
    } else {
        (c as u32 - 87) as u8
    }
}

/// The two digits of a byte, high nibble first.
pub open spec fn byte_hex(b: u8) -> Seq<char> {
    seq![hex_digit(b / 16), hex_digit(b % 16)]
}

/// The hex text of a byte string, two digits per byte, in order.
pub open spec fn hex_of(bytes: Seq<u8>) -> Seq<char>
    decreases bytes.len(),
{
    if bytes.len() == 0 {
        Seq::empty()
    } else {
        hex_of(bytes.drop_last()) + byte_hex(bytes.last())
    }
}

/// The byte spelt by the two hex digits of `s` at `k` and `k + 1`.
pub open spec fn byte_at(s: Seq<char>, k: int) -> u8 {
    (digit_value(s[k]) * 16 + digit_value(s[k + 1])) as u8
}

pub proof fn lemma_hex_digit(d: u8)
    requires
        d < 16,
    ensures
        is_hex_digit(hex_digit(d)),
        digit_value(hex_digit(d)) == d,
{
}

/// Digit `2 * i` of `hex_of(bytes)` is the high nibble of byte `i`, digit
/// `2 * i + 1` its low nibble.
pub proof fn lemma_hex_of(bytes: Seq<u8>)
    ensures
        hex_of(bytes).len() == 2 * bytes.len(),
        forall|i: int|
            0 <= i < bytes.len() ==> hex_of(bytes)[2 * i] == hex_digit(#[trigger] bytes[i] / 16)
                && hex_of(bytes)[2 * i + 1] == hex_digit(bytes[i] % 16),
    decreases bytes.len(),
{
    if bytes.len() > 0 {
        lemma_hex_of(bytes.drop_last());
        assert forall|i: int| 0 <= i < bytes.len() implies hex_of(bytes)[2 * i] == hex_digit(
            #[trigger] bytes[i] / 16,
        ) && hex_of(bytes)[2 * i + 1] == hex_digit(bytes[i] % 16) by {
            if i < bytes.len() - 1 {
                assert(bytes.drop_last()[i] == bytes[i]);
            }
        }
    }
}

/// Every digit of `hex_of(bytes)` is a hex digit, and each pair reads back
/// as the byte it came from.
pub proof fn lemma_hex_of_reads_back(bytes: Seq<u8>)
    ensures
        forall|j: int| 0 <= j < hex_of(bytes).len() ==> is_hex_digit(#[trigger] hex_of(bytes)[j]),
        forall|i: int| 0 <= i < bytes.len() ==> byte_at(hex_of(bytes), 2 * i) == #[trigger] bytes[i],
{
    lemma_hex_of(bytes);
    assert forall|j: int| 0 <= j < hex_of(bytes).len() implies is_hex_digit(
        #[trigger] hex_of(bytes)[j],
    ) by {
        let i = j / 2;
        assert(bytes[i] == bytes[i]);
        lemma_hex_digit(bytes[i] / 16);
        lemma_hex_digit(bytes[i] % 16);
        if j % 2 == 0 {
            assert(j == 2 * i);
        } else {
            assert(j == 2 * i + 1);
        }
    }
    assert forall|i: int| 0 <= i < bytes.len() implies byte_at(hex_of(bytes), 2 * i)
        == #[trigger] bytes[i] by {
        lemma_hex_digit(bytes[i] / 16);
        lemma_hex_digit(bytes[i] % 16);
    }
}

pub fn hex_digit_exec(d: u8) -> (c: char)
    requires
        d < 16,
    ensures
        c == hex_digit(d),
{
    if d < 10 {
        (d + 48) as char
    } else {
        (d + 87) as char
    }
}

pub fn is_hex_digit_exec(c: char) -> (r: bool)
    ensures
        r == is_hex_digit(c),
{
    ('0' <= c && c <= '9') || ('a' <= c && c <= 'f')
}

pub fn digit_value_exec(c: char) -> (d: u8)
    requires
        is_hex_digit(c),
    ensures
        d == digit_value(c),
        d < 16,
{
    if c <= '9' {
        (c as u32 - 48) as u8
    } else {
        (c as u32 - 87) as u8
    }
}

/// Appends the two hex digits of `b`.
pub fn push_byte_hex(out: &mut String, b: u8)
    ensures
        final(out)@ == old(out)@ + byte_hex(b),
{
    push_char(out, hex_digit_exec(b / 16));
    push_char(out, hex_digit_exec(b % 16));
    assert(final(out)@ =~= old(out)@ + byte_hex(b));
}

/// Appends the hex text of `bytes`.
pub fn push_hex(out: &mut String, bytes: &Vec<u8>)
    ensures
        final(out)@ == old(out)@ + hex_of(bytes@),
{
    let ghost start = out@;
    let mut i: usize = 0;
    while i < bytes.len()
        invariant
            i <= bytes@.len(),
            out@ == start + hex_of(bytes@.subrange(0, i as int)),
        decreases bytes@.len() - i,
    {
        push_byte_hex(out, bytes[i]);
        proof {
            let next = bytes@.subrange(0, i + 1);
            assert(next.drop_last() =~= bytes@.subrange(0, i as int));
            assert(out@ =~= start + hex_of(next));
        }
        i = i + 1;
    }
    assert(bytes@.subrange(0, bytes@.len() as int) =~= bytes@);
}

} // verus!
