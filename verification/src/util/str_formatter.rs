//! Placeholder substitution in templates: `{0}`, `{1}`, ... take the
//! argument texts by position.
use vstd::prelude::*;
use vstd::string::StringSliceAdditionalSpecFns;
use vstd::utf8::{decode_utf8, valid_utf8};
use crate::num::{parse_usize, spec_parse_usize};
use crate::text::push_char;

verus! {

/// Marker for the template formatter [`format`].
pub struct StrFormatter;

/// Second marker for the template formatter.
pub struct StrFormatterPlaceholder;

/// Position of the first byte `c` at or after `from`.
pub open spec fn find_from(b: Seq<u8>, from: int, c: u8) -> Option<int>
    decreases b.len() - from,
{
    if from < 0 || from >= b.len() {
        None
    } else if b[from] == c {
        Some(from)
    } else {
        find_from(b, from + 1, c)
    }
}

/// What a `{key}` turns into: the argument at a numeric position (nothing
/// when out of range), or the braces and key kept for any other key.
pub open spec fn key_piece(key: Seq<u8>, args: Seq<Seq<char>>) -> Seq<char> {
    if valid_utf8(key) {
        let k = decode_utf8(key);
        match spec_parse_usize(k) {
            Some(idx) => if idx < args.len() { args[idx as int] } else { Seq::empty() },
            None => seq!['{'] + k + seq!['}'],
        }
    } else {
        Seq::empty()
    }
}

/// The template bytes from position `i` on, with placeholders replaced,
/// `\{` turned into `{`, and every other byte copied as the character with
/// that code.
pub open spec fn format_from(b: Seq<u8>, i: int, args: Seq<Seq<char>>) -> Seq<char>
    decreases b.len() - i,
{
    if i < 0 || i >= b.len() {
        Seq::empty()
    } else if b[i] == 123 && find_from(b, i + 1, 125) is Some {
        let end = find_from(b, i + 1, 125)->0;
        if end <= i || end >= b.len() {
            Seq::empty()
        } else {
            key_piece(b.subrange(i + 1, end), args) + format_from(b, end + 1, args)
        }
    } else if b[i] == 92 && i + 1 < b.len() && b[i + 1] == 123 {
        seq!['{'] + format_from(b, i + 2, args)
    } else {
        seq![b[i] as char] + format_from(b, i + 1, args)
    }
}

/// `find_from` reports a position at or after the start that holds the byte.
pub proof fn lemma_find_from(b: Seq<u8>, from: int, c: u8)
    ensures
        find_from(b, from, c) matches Some(k) ==> from <= k < b.len() && b[k] == c,
    decreases b.len() - from,
{
    if 0 <= from < b.len() && b[from] != c {
        lemma_find_from(b, from + 1, c);
    }
}

/// `std::str::from_utf8`: the text of UTF-8 bytes, `None` when they are not
/// valid UTF-8.
#[verifier::external_body]
fn utf8_text(b: &[u8]) -> (r: Option<String>)
    ensures
        r is Some <==> valid_utf8(b@),
        r matches Some(s) ==> s@ == decode_utf8(b@),
{
    match std::str::from_utf8(b) {
        Ok(s) => Some(s.to_string()),
        Err(_) => None,
    }
}

/// Position of the first `}` at or after `from`.
fn find_close(b: &[u8], from: usize) -> (r: Option<usize>)
    requires
        from <= b@.len(),
    ensures
        match find_from(b@, from as int, 125) {
            None => r is None,
            Some(k) => r == Some(k as usize),
        },
{
    let mut j: usize = from;
    while j < b.len()
        invariant
            from <= j <= b@.len(),
            find_from(b@, from as int, 125) == find_from(b@, j as int, 125),
        decreases b@.len() - j,
    {
        if b[j] == 125 {
            return Some(j);
        }
        j += 1;
    }
    None
}

/// Replaces `{n}` by the `n`-th argument (nothing when there is no such
/// argument), keeps other `{key}` groups as they are, and turns `\{` into `{`.
pub fn format(template: &str, args: &[String]) -> (r: String)
    ensures
        r@ == format_from(template.spec_bytes(), 0, args@.map_values(|a: String| a@)),
{
    let ghost av = args@.map_values(|a: String| a@);
    let bytes = template.as_bytes();
    let mut out = String::new();
    let mut i: usize = 0;
    while i < bytes.len()
        invariant
            bytes@ == template.spec_bytes(),
            av == args@.map_values(|a: String| a@),
            i <= bytes@.len(),
            out@ + format_from(bytes@, i as int, av) == format_from(bytes@, 0, av),
        decreases bytes@.len() - i,
    {
        let c = bytes[i];
        let ghost before = out@;
        if c == 123 {
            proof {
                lemma_find_from(bytes@, i + 1, 125);
            }
            match find_close(bytes, i + 1) {
                Some(end) => {
                    let key_bytes = slice_range(bytes, i + 1, end);
                    match utf8_text(key_bytes.as_slice()) {
                        Some(key) => {
                            match parse_usize(key.as_str()) {
                                Some(idx) => {
                                    if idx < args.len() {
                                        out.append(args[idx].as_str());
                                    }
                                },
                                None => {
                                    push_char(&mut out, '{');
                                    out.append(key.as_str());
                                    push_char(&mut out, '}');
                                },
                            }
                        },
                        None => {},
                    }
                    assert(out@ =~= before + key_piece(bytes@.subrange(i + 1, end as int), av));
                    assert(out@ + format_from(bytes@, end + 1, av) =~= before + format_from(bytes@, i as int, av));
                    i = end + 1;
                    continue;
                },
                None => {},
            }
        }
        if c == 92 && i + 1 < bytes.len() && bytes[i + 1] == 123 {
            push_char(&mut out, '{');
            assert(out@ + format_from(bytes@, i + 2, av) =~= before + format_from(bytes@, i as int, av));
            i += 2;
            continue;
        }
        push_char(&mut out, c as char);
        assert(out@ + format_from(bytes@, i + 1, av) =~= before + format_from(bytes@, i as int, av));
        i += 1;
    }
    assert(format_from(bytes@, i as int, av) =~= Seq::<char>::empty());
    assert(out@ + Seq::<char>::empty() =~= out@);
    out
}

/// Copy of `b[from..to]`.
fn slice_range(b: &[u8], from: usize, to: usize) -> (r: Vec<u8>)
    requires
        from <= to <= b@.len(),
    ensures
        r@ == b@.subrange(from as int, to as int),
{
    let mut r: Vec<u8> = Vec::new();
    let mut k: usize = from;
    while k < to
        invariant
            from <= k <= to,
            to <= b@.len(),
            r@ == b@.subrange(from as int, k as int),
        decreases to - k,
    {
        r.push(b[k]);
        assert(b@.subrange(from as int, k + 1) =~= b@.subrange(from as int, k as int).push(b@[k as int]));
        k += 1;
    }
    r
}

} // verus!
