//! Percent-encoding of path segments.
use vstd::prelude::*;
use vstd::utf8::*;

verus! {

/// The bytes that stand for themselves in an encoded segment: letters,
/// digits, `-`, `.`, `_`, `~`, and `:` so that a drive letter such as `C:`
/// stays readable.
pub open spec fn stands_for_itself(b: u8) -> bool {
    ||| 48 <= b <= 57
    ||| 65 <= b <= 90
    ||| 97 <= b <= 122
    ||| b == 45
    ||| b == 46
    ||| b == 95
    ||| b == 126
    ||| b == 58
}

/// The upper-case hexadecimal digit of a number below sixteen.
pub open spec fn hex_digit(n: int) -> char {
    if n < 10 {
        (48 + n) as u8 as char
    } else {
        (55 + n) as u8 as char
    }
}

/// `%` and the two upper-case hexadecimal digits of a byte.
pub open spec fn escape(b: u8) -> Seq<char> {
    seq!['%', hex_digit(b as int / 16), hex_digit(b as int % 16)]
}

/// A byte in an encoded segment.
pub open spec fn encoded_byte(b: u8) -> Seq<char> {
    if stands_for_itself(b) {
        seq![b as char]
    } else {
        escape(b)
    }
}

/// Bytes in an encoded segment, one after the other.
pub open spec fn encoded_bytes(bytes: Seq<u8>) -> Seq<char>
    decreases bytes.len(),
{
    if bytes.len() == 0 {
        Seq::empty()
    } else {
        encoded_byte(bytes[0]) + encoded_bytes(bytes.skip(1))
    }
}

/// A segment with every byte of its UTF-8 form escaped that does not stand
/// for itself.
pub open spec fn percent_encoded(segment: Seq<char>) -> Seq<char> {
    encoded_bytes(encode_utf8(segment))
}

/// The value of a hexadecimal digit of either case.
pub open spec fn hex_value(b: u8) -> Option<int> {
    if 48 <= b <= 57 {
        Some(b - 48)
    } else if 65 <= b <= 70 {
        Some(b - 55)
    } else if 97 <= b <= 102 {
        Some(b - 87)
    } else {
        None
    }
}

/// `bytes` starts with `%` and two hexadecimal digits.
pub open spec fn starts_escape(bytes: Seq<u8>) -> bool {
    bytes.len() >= 3 && bytes[0] == 37 && hex_value(bytes[1]) is Some && hex_value(bytes[2]) is Some
}

/// The bytes with each `%` that two hexadecimal digits follow replaced by the
/// byte that they denote.
pub open spec fn unescaped(bytes: Seq<u8>) -> Seq<u8>
    decreases bytes.len(),
{
    if bytes.len() == 0 {
        Seq::empty()
    } else if starts_escape(bytes) {
        seq![(hex_value(bytes[1])->0 * 16 + hex_value(bytes[2])->0) as u8] + unescaped(
            bytes.skip(3),
        )
    } else {
        seq![bytes[0]] + unescaped(bytes.skip(1))
    }
}

/// The text that percent-encoded text stands for; none where the bytes are
/// not UTF-8.
pub open spec fn percent_decoded(raw: Seq<char>) -> Option<Seq<char>> {
    let bytes = unescaped(encode_utf8(raw));
    if valid_utf8(bytes) {
        Some(decode_utf8(bytes))
    } else {
        None
    }
}

/// `percent_encoding::percent_encode_byte` gives `%` and the two upper-case
/// hexadecimal digits of the byte, whatever the byte.
pub assume_specification[ percent_encoding::percent_encode_byte ](byte: u8) -> (r: &'static str)
    ensures
        r@ == escape(byte),
;

/// Calls `percent_encoding::percent_decode_str` and decodes the bytes as
/// UTF-8.  The contract claims that each `%` followed by two hexadecimal
/// digits becomes the byte they denote, that every other byte is kept, and
/// that there is a result exactly where the bytes are well-formed UTF-8.
#[verifier::external_body]
pub(crate) fn decode_percent(raw: &str) -> (r: Option<String>)
    ensures
        r is Some == percent_decoded(raw@) is Some,
        r matches Some(s) ==> Some(s@) == percent_decoded(raw@),
{
    percent_encoding::percent_decode_str(raw).decode_utf8().ok().map(|s| s.into_owned())
}

fn keeps(b: u8) -> (r: bool)
    ensures
        r == stands_for_itself(b),
{
    (48 <= b && b <= 57) || (65 <= b && b <= 90) || (97 <= b && b <= 122) || b == 45 || b == 46
        || b == 95 || b == 126 || b == 58
}

/// A path segment with every byte escaped that does not stand for itself.
pub fn encode_segment(segment: &str) -> (r: String)
    ensures
        r@ == percent_encoded(segment@),
{
    let bytes = segment.as_bytes();
    let ghost all = encode_utf8(segment@);
    let mut out = String::new();
    let mut i: usize = 0;
    assert(all.skip(0) =~= all);
    assert(out@ + encoded_bytes(all) =~= encoded_bytes(all));
    while i < bytes.len()
        invariant
            i <= bytes@.len(),
            bytes@ == all,
            out@ + encoded_bytes(all.skip(i as int)) == encoded_bytes(all),
        decreases bytes.len() - i,
    {
        let b = bytes[i];
        let ghost before = out@;
        if keeps(b) {
            out.push(b as char);
            assert(out@ =~= before + encoded_byte(b));
        } else {
            out.append(percent_encoding::percent_encode_byte(b));
        }
        proof {
            let rest = all.skip(i as int);
            assert(rest[0] == b);
            assert(rest.skip(1) =~= all.skip(i + 1));
            assert(encoded_bytes(rest) == encoded_byte(b) + encoded_bytes(all.skip(i + 1)));
            assert(out@ + encoded_bytes(all.skip(i + 1)) =~= before + encoded_bytes(rest));
        }
        i += 1;
    }
    assert(all.skip(bytes@.len() as int) =~= Seq::<u8>::empty());
    assert(out@ + Seq::<char>::empty() =~= out@);
    out
}

/// A character that can occur in an encoded segment.
pub open spec fn plain(c: char) -> bool {
    c == '%' || ('\0' <= c <= '\u{7f}' && stands_for_itself(c as u8))
}

proof fn lemma_hex_digit(n: int)
    requires
        0 <= n < 16,
    ensures
        plain(hex_digit(n)),
        hex_value(hex_digit(n) as u8) == Some(n),
{
}

/// An encoded segment holds only plain characters, and is empty only where
/// the bytes are.
pub proof fn lemma_encoded_plain(bytes: Seq<u8>)
    ensures
        forall|i: int|
            0 <= i < encoded_bytes(bytes).len() ==> plain(#[trigger] encoded_bytes(bytes)[i]),
        encoded_bytes(bytes).len() >= bytes.len(),
    decreases bytes.len(),
{
    if bytes.len() > 0 {
        let b = bytes[0];
        lemma_hex_digit(b as int / 16);
        lemma_hex_digit(b as int % 16);
        lemma_encoded_plain(bytes.skip(1));
        let head = encoded_byte(b);
        let tail = encoded_bytes(bytes.skip(1));
        assert forall|i: int| 0 <= i < encoded_bytes(bytes).len() implies plain(
            #[trigger] encoded_bytes(bytes)[i],
        ) by {
            if i < head.len() {
                assert(encoded_bytes(bytes)[i] == head[i]);
            } else {
                assert(encoded_bytes(bytes)[i] == tail[i - head.len()]);
            }
        }
    }
}

spec fn narrowed(s: Seq<char>) -> Seq<u8> {
    Seq::new(s.len(), |i: int| s[i] as u8)
}

proof fn lemma_unescaped_encoded(bytes: Seq<u8>)
    ensures
        unescaped(narrowed(encoded_bytes(bytes))) == bytes,
    decreases bytes.len(),
{
    let n = narrowed(encoded_bytes(bytes));
    if bytes.len() == 0 {
        assert(n =~= Seq::<u8>::empty());
    } else {
        let b = bytes[0];
        let rest = bytes.skip(1);
        lemma_unescaped_encoded(rest);
        lemma_hex_digit(b as int / 16);
        lemma_hex_digit(b as int % 16);
        let head = encoded_byte(b);
        let tail = encoded_bytes(rest);
        assert(encoded_bytes(bytes) == head + tail);
        if stands_for_itself(b) {
            assert(n[0] == b);
            assert(n.skip(1) =~= narrowed(tail));
            assert(!starts_escape(n));
            assert(unescaped(n) =~= bytes);
        } else {
            assert(n[0] == 37);
            assert(n[1] == hex_digit(b as int / 16) as u8);
            assert(n[2] == hex_digit(b as int % 16) as u8);
            assert(n.skip(3) =~= narrowed(tail));
            assert(starts_escape(n));
            assert((b as int / 16) * 16 + b as int % 16 == b);
            assert(unescaped(n) =~= bytes);
        }
    }
}

/// Decoding an encoded segment gives the segment back.
pub proof fn law_decode_of_encode(segment: Seq<char>)
    ensures
        percent_decoded(percent_encoded(segment)) == Some(segment),
{
    let bytes = encode_utf8(segment);
    let e = encoded_bytes(bytes);
    lemma_encoded_plain(bytes);
    assert(is_ascii_chars(e)) by {
        assert forall|i: int| 0 <= i < e.len() implies '\0' <= #[trigger] e[i] <= '\u{7f}' by {
            assert(plain(e[i]));
        }
    }
    is_ascii_chars_encode_utf8(e);
    assert(encode_utf8(e) =~= narrowed(e));
    lemma_unescaped_encoded(bytes);
    encode_utf8_valid_utf8(segment);
    encode_utf8_decode_utf8(segment);
}

/// Text that is not empty does not decode to nothing.
pub proof fn lemma_decoded_not_empty(raw: Seq<char>)
    requires
        raw.len() > 0,
    ensures
        percent_decoded(raw) matches Some(s) ==> s.len() > 0,
{
    let bytes = encode_utf8(raw);
    assert(bytes.len() > 0) by {
        encode_utf8_first_scalar(raw);
    }
    assert(unescaped(bytes).len() > 0);
}

/// Encoded text of an empty segment is empty, and of any other is not.
pub proof fn lemma_encoded_empty(segment: Seq<char>)
    ensures
        percent_encoded(segment).len() == 0 <==> segment.len() == 0,
{
    if segment.len() > 0 {
        assert(encode_utf8(segment).len() > 0) by {
            encode_utf8_first_scalar(segment);
        }
        lemma_encoded_plain(encode_utf8(segment));
    }
}

} // verus!
