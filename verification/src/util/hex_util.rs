//! Hexadecimal encoding of bytes (upper case) and decoding (either case).
use vstd::prelude::*;
use vstd::string::StringExecFns;
use vstd::string::StringSliceAdditionalSpecFns;
use vstd::utf8::{encode_utf8, is_ascii_chars, is_ascii_chars_encode_utf8};
use crate::text::push_char;

verus! {

/// Marker for the hexadecimal helpers [`encode`] and [`decode`].
pub struct SaHexUtil;

/// The hex digit character for a value 0..=15, upper case when `upper`.
pub open spec fn hex_char(v: int, upper: bool) -> char {
    if v < 10 {
        ((v + 48) as u32) as char
    } else if upper {
        ((v + 55) as u32) as char
    } else {
        ((v + 87) as u32) as char
    }
}

/// Two hex digits per byte, high half first.
pub open spec fn hex_text(b: Seq<u8>, upper: bool) -> Seq<char>
    decreases b.len(),
{
    if b.len() == 0 {
        Seq::empty()
    } else {
        hex_text(b.drop_last(), upper) + seq![hex_char((b.last() / 16) as int, upper), hex_char((b.last() % 16) as int, upper)]
    }
}

/// The value of a hex digit byte, either case.
pub open spec fn hex_val(c: u8) -> Option<u8> {
    if 48 <= c <= 57 {
        Some((c - 48) as u8)
    } else if 97 <= c <= 102 {
        Some((c - 87) as u8)
    } else if 65 <= c <= 70 {
        Some((c - 55) as u8)
    } else {
        None
    }
}

/// Decodes byte pairs from the front; `Err` carries the first byte that is
/// not a hex digit.
pub open spec fn decode_pairs(b: Seq<u8>) -> Result<Seq<u8>, u8>
    decreases b.len(),
{
    if b.len() < 2 {
        Ok(Seq::empty())
    } else {
        match hex_val(b[0]) {
            None => Err(b[0]),
            Some(h) => match hex_val(b[1]) {
                None => Err(b[1]),
                Some(l) => match decode_pairs(b.subrange(2, b.len() as int)) {
                    Ok(r) => Ok(seq![(h * 16 + l) as u8] + r),
                    Err(e) => Err(e),
                },
            },
        }
    }
}

/// Message for input of odd length.
pub open spec fn odd_length_message() -> Seq<char> {
    "hex 字符串长度必须是偶数"@
}

/// Message for a byte that is not a hex digit.
pub open spec fn bad_digit_message(c: u8) -> Seq<char> {
    "非法的 hex 字符: "@.push(c as char)
}

/// Result of [`decode`] on the UTF-8 bytes of the input.
pub open spec fn spec_decode(b: Seq<u8>) -> Result<Seq<u8>, Seq<char>> {
    if b.len() % 2 != 0 {
        Err(odd_length_message())
    } else {
        match decode_pairs(b) {
            Ok(r) => Ok(r),
            Err(c) => Err(bad_digit_message(c)),
        }
    }
}

/// The hex digit character of a value 0..=15.
pub(crate) fn hex_digit_char(v: u8, upper: bool) -> (c: char)
    requires
        v < 16,
    ensures
        c == hex_char(v as int, upper),
{
    if v < 10 {
        (v + 48) as char
    } else if upper {
        (v + 55) as char
    } else {
        (v + 87) as char
    }
}

/// Hex text of the bytes, two digits per byte.
pub(crate) fn hex_string(bytes: &[u8], upper: bool) -> (r: String)
    ensures
        r@ == hex_text(bytes@, upper),
{
    let mut r = String::new();
    let mut i: usize = 0;
    while i < bytes.len()
        invariant
            i <= bytes@.len(),
            r@ == hex_text(bytes@.take(i as int), upper),
        decreases bytes@.len() - i,
    {
        let b = bytes[i];
        let ghost pre = r@;
        push_char(&mut r, hex_digit_char(b / 16, upper));
        push_char(&mut r, hex_digit_char(b % 16, upper));
        assert(bytes@.take(i + 1).drop_last() =~= bytes@.take(i as int));
        assert(r@ =~= hex_text(bytes@.take(i + 1), upper));
        i += 1;
    }
    assert(bytes@.take(bytes@.len() as int) =~= bytes@);
    r
}

/// Bytes to upper-case hex text.
pub fn encode(bytes: &[u8]) -> (r: String)
    ensures
        r@ == hex_text(bytes@, true),
{
    hex_string(bytes, true)
}

/// The value of a hex digit byte.
fn hex_digit(c: u8) -> (r: Option<u8>)
    ensures
        r == hex_val(c),
{
    if 48 <= c && c <= 57 {
        Some(c - 48)
    } else if 97 <= c && c <= 102 {
        Some(c - 87)
    } else if 65 <= c && c <= 70 {
        Some(c - 55)
    } else {
        None
    }
}

/// Hex text (either case) to bytes; odd length or a non-hex character is an
/// error naming the problem.
pub fn decode(s: &str) -> (r: Result<Vec<u8>, String>)
    ensures
        match spec_decode(s.spec_bytes()) {
            Ok(v) => r matches Ok(x) && x@ == v,
            Err(m) => r matches Err(e) && e@ == m,
        },
{
    let bytes = s.as_bytes();
    if bytes.len() % 2 != 0 {
        return Err("hex 字符串长度必须是偶数".to_owned());
    }
    let mut out: Vec<u8> = Vec::new();
    let mut i: usize = 0;
    assert(bytes@.subrange(0, bytes@.len() as int) =~= bytes@);
    proof {
        match decode_pairs(bytes@) {
            Ok(r0) => assert(out@ + r0 =~= r0),
            Err(_) => {},
        }
    }
    while i < bytes.len()
        invariant
            bytes@ == s.spec_bytes(),
            bytes@.len() % 2 == 0,
            i <= bytes@.len(),
            i % 2 == 0,
            decode_pairs(bytes@) == match decode_pairs(bytes@.subrange(i as int, bytes@.len() as int)) {
                Ok(rest) => Ok(out@ + rest),
                Err(e) => Err(e),
            },
        decreases bytes@.len() - i,
    {
        let ghost rest = bytes@.subrange(i as int, bytes@.len() as int);
        assert(rest.subrange(2, rest.len() as int) =~= bytes@.subrange(i + 2, bytes@.len() as int));
        let hi = match hex_digit(bytes[i]) {
            Some(h) => h,
            None => {
                let mut m: String = "非法的 hex 字符: ".to_owned();
                push_char(&mut m, bytes[i] as char);
                return Err(m);
            },
        };
        let lo = match hex_digit(bytes[i + 1]) {
            Some(l) => l,
            None => {
                let mut m: String = "非法的 hex 字符: ".to_owned();
                push_char(&mut m, bytes[i + 1] as char);
                return Err(m);
            },
        };
        let ghost prev_out = out@;
        out.push(hi * 16 + lo);
        proof {
            match decode_pairs(bytes@.subrange(i + 2, bytes@.len() as int)) {
                Ok(r2) => {
                    assert(out@ + r2 =~= prev_out + (seq![(hi * 16 + lo) as u8] + r2));
                },
                Err(e) => {},
            }
        }
        i += 2;
    }
    assert(bytes@.subrange(i as int, bytes@.len() as int).len() == 0);
    assert(out@ + Seq::<u8>::empty() =~= out@);
    Ok(out)
}

/// Decoding the upper-case hex text of any bytes gives the bytes back.
pub proof fn lemma_decode_encode(b: Seq<u8>)
    ensures
        spec_decode(encode_utf8(hex_text(b, true))) == Ok::<Seq<u8>, Seq<char>>(b),
{
    lemma_hex_text_ascii(b);
    is_ascii_chars_encode_utf8(hex_text(b, true));
    let h = hex_text(b, true);
    let bytes = encode_utf8(h);
    assert(bytes =~= h.map_values(|c: char| c as u8));
    assert(bytes.len() == 2 * b.len());
    lemma_decode_pairs_hex(b);
}

/// Pairwise decoding of an even number of bytes succeeds exactly when each
/// byte is a hex digit, with one byte for each pair.
proof fn lemma_decode_pairs_ok(b: Seq<u8>)
    requires
        b.len() % 2 == 0,
    ensures
        (decode_pairs(b) is Ok) <==> (forall|i: int| 0 <= i < b.len() ==> #[trigger] hex_val(b[i]) is Some),
        decode_pairs(b) matches Ok(r) ==> r.len() * 2 == b.len(),
    decreases b.len(),
{
    if b.len() >= 2 {
        let rest = b.subrange(2, b.len() as int);
        lemma_decode_pairs_ok(rest);
        assert forall|i: int| 0 <= i < rest.len() implies rest[i] == b[i + 2] by {}
        if forall|i: int| 0 <= i < b.len() ==> #[trigger] hex_val(b[i]) is Some {
            assert(hex_val(b[0]) is Some);
            assert(hex_val(b[1]) is Some);
            assert forall|i: int| 0 <= i < rest.len() implies #[trigger] hex_val(rest[i]) is Some by {
                assert(hex_val(b[i + 2]) is Some);
            }
        } else {
            let k = choose|i: int| 0 <= i < b.len() && !(#[trigger] hex_val(b[i]) is Some);
            if k >= 2 {
                assert(rest[k - 2] == b[k]);
                assert(!(hex_val(rest[k - 2]) is Some));
            }
        }
    }
}

/// Decoding succeeds exactly on text of even length made only of hex
/// digits (either case), and then gives half as many bytes.
pub proof fn lemma_decode_ok_iff(b: Seq<u8>)
    ensures
        (spec_decode(b) is Ok) <==> (b.len() % 2 == 0
            && forall|i: int| 0 <= i < b.len() ==> #[trigger] hex_val(b[i]) is Some),
        spec_decode(b) matches Ok(r) ==> r.len() * 2 == b.len(),
{
    if b.len() % 2 == 0 {
        lemma_decode_pairs_ok(b);
    }
}

/// Hex text is ASCII and twice as long as the bytes.
proof fn lemma_hex_text_ascii(b: Seq<u8>)
    ensures
        is_ascii_chars(hex_text(b, true)),
        hex_text(b, true).len() == 2 * b.len(),
    decreases b.len(),
{
    if b.len() > 0 {
        lemma_hex_text_ascii(b.drop_last());
    }
}

/// Pairwise decoding of the byte codes of hex text.
proof fn lemma_decode_pairs_hex(b: Seq<u8>)
    ensures
        decode_pairs(hex_text(b, true).map_values(|c: char| c as u8)) == Ok::<Seq<u8>, u8>(b),
    decreases b.len(),
{
    if b.len() > 0 {
        let first = b[0];
        let rest = b.drop_first();
        lemma_hex_text_front(b);
        lemma_decode_pairs_hex(rest);
        let codes = hex_text(b, true).map_values(|c: char| c as u8);
        let rest_codes = hex_text(rest, true).map_values(|c: char| c as u8);
        assert(codes.subrange(2, codes.len() as int) =~= rest_codes);
        lemma_hex_char_val((first / 16) as int);
        lemma_hex_char_val((first % 16) as int);
        assert(codes[0] == hex_char((first / 16) as int, true) as u8);
        assert(codes[1] == hex_char((first % 16) as int, true) as u8);
        let h = (first / 16) as u8;
        let l = (first % 16) as u8;
        assert((h * 16 + l) as u8 == first);
        assert(codes.len() >= 2);
        assert(hex_val(codes[0]) == Some(h));
        assert(hex_val(codes[1]) == Some(l));
        assert(decode_pairs(codes.subrange(2, codes.len() as int)) == Ok::<Seq<u8>, u8>(rest));
        assert(decode_pairs(codes) == Ok::<Seq<u8>, u8>(seq![(h * 16 + l) as u8] + rest));
        assert(seq![first] + rest =~= b);
        assert(seq![(h * 16 + l) as u8] + rest =~= b);
    } else {
        assert(hex_text(b, true).map_values(|c: char| c as u8).len() == 0);
        assert(b =~= Seq::<u8>::empty());
    }
}

/// Hex text of bytes is the two digits of the first byte followed by the
/// text of the rest.
proof fn lemma_hex_text_front(b: Seq<u8>)
    requires
        b.len() > 0,
    ensures
        hex_text(b, true) =~= seq![hex_char((b[0] / 16) as int, true), hex_char((b[0] % 16) as int, true)] + hex_text(b.drop_first(), true),
    decreases b.len(),
{
    let pair = |x: u8| seq![hex_char((x / 16) as int, true), hex_char((x % 16) as int, true)];
    assert(hex_text(b, true) == hex_text(b.drop_last(), true) + pair(b.last()));
    if b.len() > 1 {
        lemma_hex_text_front(b.drop_last());
        assert(b.drop_last().drop_first() =~= b.drop_first().drop_last());
        assert(b.drop_first().last() == b.last());
        assert(b.drop_last()[0] == b[0]);
        assert(hex_text(b.drop_first(), true) == hex_text(b.drop_first().drop_last(), true) + pair(b.drop_first().last()));
    } else {
        assert(b.drop_last().len() == 0);
        assert(b.drop_first().len() == 0);
        assert(b.last() == b[0]);
        assert(hex_text(b.drop_last(), true) == Seq::<char>::empty());
        assert(hex_text(b.drop_first(), true) == Seq::<char>::empty());
    }
}

/// The byte code of a hex digit character decodes to its value.
pub proof fn lemma_hex_char_val(v: int)
    requires
        0 <= v < 16,
    ensures
        hex_val(hex_char(v, true) as u8) == Some(v as u8),
{
    if v < 10 {
        assert(((v + 48) as u32) as char as u32 == (v + 48) as u32);
    } else {
        assert(((v + 55) as u32) as char as u32 == (v + 55) as u32);
    }
}

} // verus!
