//! Hexadecimal text, as the `hex` crate writes and reads it.

use vstd::prelude::*;

verus! {

/// The number of characters in the hexadecimal text of a 32-byte tag.
pub const HEX_TAG_LEN: usize = 64;

/// The lower-case hexadecimal digit for a value below 16.
pub open spec fn hex_digit(value: int) -> char {
    seq!['0', '1', '2', '3', '4', '5', '6', '7', '8', '9', 'a', 'b', 'c', 'd', 'e', 'f'][value]
}

/// The lower-case hexadecimal text of `bytes`: two digits for each byte, the
/// high half first.
pub open spec fn hex_string(bytes: Seq<u8>) -> Seq<char> {
    Seq::new(
        2 * bytes.len(),
        |i: int|
            if i % 2 == 0 {
                hex_digit(bytes[i / 2] as int / 16)
            } else {
                hex_digit(bytes[i / 2] as int % 16)
            },
    )
}

/// The value of a hexadecimal digit of either case, and `None` for any other
/// character.
pub open spec fn hex_value(c: char) -> Option<int> {
    if '0' <= c <= '9' {
        Some(c as int - '0' as int)
    } else if 'a' <= c <= 'f' {
        Some(c as int - 'a' as int + 10)
    } else if 'A' <= c <= 'F' {
        Some(c as int - 'A' as int + 10)
    } else {
        None
    }
}

/// The bytes that hexadecimal `text` stands for: `None` where its length is
/// odd or a character is no hexadecimal digit.
pub open spec fn hex_bytes(text: Seq<char>) -> Option<Seq<u8>> {
    if text.len() % 2 == 0 && forall|i: int| 0 <= i < text.len() ==> hex_value(#[trigger] text[i])
        is Some {
        Some(
            Seq::new(
                text.len() / 2,
                |i: int| (16 * hex_value(text[2 * i])->0 + hex_value(text[2 * i + 1])->0) as u8,
            ),
        )
    } else {
        None
    }
}

/// Reading back what `hex_string` wrote gives the bytes again.
pub proof fn lemma_hex_round_trip(bytes: Seq<u8>)
    ensures
        hex_bytes(hex_string(bytes)) == Some(bytes),
{
    let text = hex_string(bytes);
    assert forall|n: int| 0 <= n < 16 implies hex_value(#[trigger] hex_digit(n)) == Some(n) by {
        lemma_digit_value(n);
    }
    assert forall|i: int| 0 <= i < text.len() implies hex_value(#[trigger] text[i]) is Some by {
        let b = bytes[i / 2] as int;
        assert(0 <= b / 16 < 16 && 0 <= b % 16 < 16);
    }
    let back = hex_bytes(text)->0;
    assert(back.len() == bytes.len());
    assert forall|i: int| 0 <= i < bytes.len() implies back[i] == bytes[i] by {
        let b = bytes[i] as int;
        assert(0 <= b / 16 < 16 && 0 <= b % 16 < 16);
        assert((2 * i) / 2 == i && (2 * i + 1) / 2 == i);
        assert(text[2 * i] == hex_digit(b / 16));
        assert(text[2 * i + 1] == hex_digit(b % 16));
        assert(16 * (b / 16) + b % 16 == b);
    }
    assert(back =~= bytes);
}

/// Two byte strings with the same hexadecimal text are the same.
pub proof fn lemma_hex_string_injective(a: Seq<u8>, b: Seq<u8>)
    requires
        hex_string(a) == hex_string(b),
    ensures
        a == b,
{
    lemma_hex_round_trip(a);
    lemma_hex_round_trip(b);
}

/// Hexadecimal text holds no dot.
pub proof fn lemma_hex_string_has_no_dot(bytes: Seq<u8>)
    ensures
        forall|i: int| 0 <= i < hex_string(bytes).len() ==> hex_string(bytes)[i] != '.',
{
    assert forall|i: int| 0 <= i < hex_string(bytes).len() implies hex_string(bytes)[i]
        != '.' by {
        let b = bytes[i / 2] as int;
        assert(0 <= b / 16 < 16 && 0 <= b % 16 < 16);
        lemma_digit_value(b / 16);
        lemma_digit_value(b % 16);
    }
}

proof fn lemma_digit_value(n: int)
    requires
        0 <= n < 16,
    ensures
        hex_value(hex_digit(n)) == Some(n),
{
    let table =
        seq!['0', '1', '2', '3', '4', '5', '6', '7', '8', '9', 'a', 'b', 'c', 'd', 'e', 'f'];
    assert(table[0] == '0' && table[1] == '1' && table[2] == '2' && table[3] == '3');
    assert(table[4] == '4' && table[5] == '5' && table[6] == '6' && table[7] == '7');
    assert(table[8] == '8' && table[9] == '9' && table[10] == 'a' && table[11] == 'b');
    assert(table[12] == 'c' && table[13] == 'd' && table[14] == 'e' && table[15] == 'f');
}

/// Calls `hex::encode`, which writes each byte as two lower-case hexadecimal
/// digits, the high half first.
#[verifier::external_body]
pub(crate) fn encode(data: &[u8]) -> (text: String)
    ensures
        text@ == hex_string(data@),
{
    hex::encode(data)
}

/// Calls `hex::decode`, which reads two hexadecimal digits of either case
/// into each byte and fails on an odd length or on any other character.
#[verifier::external_body]
pub(crate) fn decode(text: &str) -> (bytes: Option<Vec<u8>>)
    ensures
        match bytes {
            Some(b) => hex_bytes(text@) == Some(b@),
            None => hex_bytes(text@) is None,
        },
{
    hex::decode(text).ok()
}

} // verus!
