//! String, URL and list helpers used throughout the library.
use vstd::prelude::*;
use rand::RngExt;
use chrono::TimeZone;
use vstd::string::StringExecFns;
use vstd::string::StringSliceAdditionalSpecFns;
use crate::num::int_to_string;
use crate::util::hex_util::{hex_char, hex_string, hex_text, hex_val};
use vstd::utf8::{decode_utf8, encode_utf8, encode_scalar, has_width_1_encoding, leading_byte_width_1, valid_utf8, is_ascii_chars, is_ascii_chars_encode_utf8, encode_utf8_valid_utf8, encode_utf8_decode_utf8};
use crate::text::{chars_of, contains_char, is_ws, trim, trim_end, trim_start, trim_chars, string_of, has_infix, contains_str, has_prefix, join, join_strings, join_strs, push_char, starts_with, str_eq, views};

verus! {

/// Log level names, indexed by their number.
pub open spec fn log_level_names() -> Seq<Seq<char>> {
    seq![""@, "trace"@, "debug"@, "info"@, "warn"@, "error"@, "fatal"@]
}

/// Position of the last occurrence of `c` in `s`.
pub open spec fn last_index_of(s: Seq<char>, c: char) -> Option<int>
    decreases s.len(),
{
    if s.len() == 0 {
        None
    } else if s.last() == c {
        Some(s.len() - 1)
    } else {
        last_index_of(s.drop_last(), c)
    }
}

/// `url` with `param` attached after the mark character `mark` (`?` for the
/// query, `#` for the fragment).
pub open spec fn spec_join_with_mark(url: Seq<char>, param: Seq<char>, mark: char) -> Seq<char> {
    if param.len() == 0 {
        url
    } else {
        match last_index_of(url, mark) {
            None => url + seq![mark] + param,
            Some(i) => if i + 1 == url.len() {
                url + param
            } else if !(url.len() > 0 && url.last() == '&') && !(param[0] == '&') {
                url + seq!['&'] + param
            } else {
                url + param
            },
        }
    }
}

/// `url1` followed by `url2`, unless one is empty or `url2` is absolute.
pub open spec fn spec_splice_two_url(url1: Seq<char>, url2: Seq<char>) -> Seq<char> {
    if url1.len() == 0 {
        url2
    } else if url2.len() == 0 {
        url1
    } else if has_prefix(url2, "http"@) {
        url2
    } else {
        url1 + url2
    }
}

/// Whether some character of `s` is an ASCII control character.
pub open spec fn spec_has_non_printable_ascii(s: Seq<char>) -> bool {
    exists|i: int| 0 <= i < s.len() && ((#[trigger] s[i]) as u32 <= 31 || s[i] as u32 == 127)
}

/// The names accepted as basic type names.
pub open spec fn spec_is_basic_type(t: Seq<char>) -> bool {
    ||| t == "i8"@ ||| t == "i16"@ ||| t == "i32"@ ||| t == "i64"@ ||| t == "i128"@
    ||| t == "u8"@ ||| t == "u16"@ ||| t == "u32"@ ||| t == "u64"@ ||| t == "u128"@
    ||| t == "f32"@ ||| t == "f64"@ ||| t == "bool"@ ||| t == "char"@
    ||| t == "String"@ ||| t == "&str"@
}

/// Number of the first log level name from position `i` on that equals
/// `level`, or 1 when there is none.
pub open spec fn level_index_from(level: Seq<char>, i: int) -> i32
    decreases 7 - i,
{
    if i >= 7 || i < 1 {
        1
    } else if log_level_names()[i] == level {
        i as i32
    } else {
        level_index_from(level, i + 1)
    }
}

/// Level numbers found by the search lie in 1..=6.
pub proof fn lemma_level_index_range(level: Seq<char>, i: int)
    ensures
        1 <= level_index_from(level, i) <= 6,
    decreases 7 - i,
{
    if 1 <= i < 7 && log_level_names()[i] != level {
        lemma_level_index_range(level, i + 1);
    }
}

/// Number of a log level name; unknown names and the empty name give 1.
pub open spec fn spec_log_level_to_int(level: Seq<char>) -> i32 {
    level_index_from(level, 1)
}

/// The position `last_index_of` reports holds the character.
pub proof fn lemma_last_index_of(s: Seq<char>, c: char)
    ensures
        last_index_of(s, c) matches Some(i) ==> 0 <= i < s.len() && s[i] == c,
    decreases s.len(),
{
    if s.len() > 0 {
        lemma_last_index_of(s.drop_last(), c);
    }
}

/// Name of a log level number; out-of-range numbers give `trace`.
pub open spec fn spec_log_level_to_string(level: i32) -> Seq<char> {
    if level <= 0 || level >= 7 {
        log_level_names()[1]
    } else {
        log_level_names()[level as int]
    }
}

/// Finds the last position of `c` in `s`.
fn rfind_char(s: &Vec<char>, c: char) -> (r: Option<usize>)
    ensures
        match last_index_of(s@, c) {
            None => r is None,
            Some(i) => r == Some(i as usize),
        },
        r matches Some(i) ==> i < s@.len() && last_index_of(s@, c) == Some(i as int),
{
    proof {
        lemma_last_index_of(s@, c);
    }
    assert(s@.subrange(0, s@.len() as int) =~= s@);
    let mut i: usize = s.len();
    while i > 0
        invariant
            i <= s@.len(),
            last_index_of(s@, c) == last_index_of(s@.subrange(0, i as int), c),
        decreases i,
    {
        let ghost pre = s@.subrange(0, i as int);
        assert(pre.drop_last() =~= s@.subrange(0, i - 1));
        if s[i - 1] == c {
            return Some(i - 1);
        }
        i -= 1;
    }
    assert(s@.subrange(0, 0).len() == 0);
    None
}

/// Attaches `param_str` to `url` after the mark character `mark`.
fn join_with_mark(url: &str, param_str: &str, mark: char) -> (r: String)
    ensures
        r@ == spec_join_with_mark(url@, param_str@, mark),
{
    let pc = chars_of(param_str);
    if pc.len() == 0 {
        return url.to_owned();
    }
    let uc = chars_of(url);
    let mut r: String = url.to_owned();
    match rfind_char(&uc, mark) {
        None => {
            push_char(&mut r, mark);
            r.append(param_str);
            assert(r@ =~= url@ + seq![mark] + param_str@);
        },
        Some(idx) => {
            if idx == uc.len() - 1 {
                r.append(param_str);
            } else {
                let ends_amp = uc[uc.len() - 1] == '&';
                let starts_amp = pc[0] == '&';
                if !ends_amp && !starts_amp {
                    push_char(&mut r, '&');
                    r.append(param_str);
                    assert(r@ =~= url@ + seq!['&'] + param_str@);
                } else {
                    r.append(param_str);
                }
            }
        },
    }
    r
}

/// Wildcard matching of bytes: `*` in the pattern stands for any run of
/// bytes, every other byte stands for itself.
pub open spec fn wildcard_match(p: Seq<u8>, t: Seq<u8>) -> bool
    decreases p.len() + t.len(),
{
    if p.len() == 0 {
        t.len() == 0
    } else if p.last() == 42u8 {
        wildcard_match(p.drop_last(), t) || (t.len() > 0 && wildcard_match(p, t.drop_last()))
    } else {
        t.len() > 0 && t.last() == p.last() && wildcard_match(p.drop_last(), t.drop_last())
    }
}

/// A lone `*` matches every text, the empty one included.
pub proof fn law_star_matches_any(u: Seq<u8>)
    ensures
        wildcard_match(seq![42u8], u),
    decreases u.len(),
{
    let p = seq![42u8];
    assert(p.drop_last() =~= Seq::<u8>::empty());
    assert(p.last() == 42u8);
    if u.len() > 0 {
        law_star_matches_any(u.drop_last());
    } else {
        assert(wildcard_match(p.drop_last(), u));
    }
}

/// Matching is compositional: when `p1` matches `t1` and `p2` matches `t2`,
/// the pattern `p1 + p2` matches the text `t1 + t2`.
pub proof fn law_wildcard_concat(p1: Seq<u8>, t1: Seq<u8>, p2: Seq<u8>, t2: Seq<u8>)
    requires
        wildcard_match(p1, t1),
        wildcard_match(p2, t2),
    ensures
        wildcard_match(p1 + p2, t1 + t2),
    decreases p2.len() + t2.len(),
{
    let p = p1 + p2;
    let t = t1 + t2;
    if p2.len() == 0 {
        assert(t2.len() == 0);
        assert(p =~= p1);
        assert(t =~= t1);
    } else {
        assert(p.drop_last() =~= p1 + p2.drop_last());
        assert(p.last() == p2.last());
        if p2.last() == 42u8 {
            if wildcard_match(p2.drop_last(), t2) {
                law_wildcard_concat(p1, t1, p2.drop_last(), t2);
            } else {
                law_wildcard_concat(p1, t1, p2, t2.drop_last());
                assert(t.drop_last() =~= t1 + t2.drop_last());
            }
        } else {
            law_wildcard_concat(p1, t1, p2.drop_last(), t2.drop_last());
            assert(t.drop_last() =~= t1 + t2.drop_last());
            assert(t.last() == t2.last());
        }
    }
}

/// Every pattern matches itself: a `*` in it matches the `*` in the text,
/// every other byte itself.
pub proof fn law_wildcard_reflexive(p: Seq<u8>)
    ensures
        wildcard_match(p, p),
    decreases p.len(),
{
    if p.len() > 0 {
        let d = p.drop_last();
        law_wildcard_reflexive(d);
        let c = seq![p.last()];
        if p.last() == 42u8 {
            law_star_matches_any(c);
        } else {
            assert(c.drop_last() =~= Seq::<u8>::empty());
            assert(wildcard_match(c.drop_last(), c.drop_last()));
            assert(c.last() == p.last());
        }
        law_wildcard_concat(d, d, c, c);
        assert(d + c =~= p);
    }
}

/// A `*` added at the end of a pattern may match nothing or anything:
/// when `p` matches `t`, `p` followed by `*` matches `t` followed by any
/// bytes, `t` itself included.
pub proof fn law_trailing_star(p: Seq<u8>, t: Seq<u8>, u: Seq<u8>)
    requires
        wildcard_match(p, t),
    ensures
        wildcard_match(p.push(42u8), t),
        wildcard_match(p.push(42u8), t + u),
{
    law_star_matches_any(u);
    law_star_matches_any(Seq::<u8>::empty());
    law_wildcard_concat(p, t, seq![42u8], u);
    law_wildcard_concat(p, t, seq![42u8], Seq::<u8>::empty());
    assert(p + seq![42u8] =~= p.push(42u8));
    assert(t + Seq::<u8>::empty() =~= t);
}

/// A pattern without `*` matches exactly the text equal to it.
pub proof fn law_plain_pattern_is_exact(p: Seq<u8>, t: Seq<u8>)
    requires
        !p.contains(42u8),
    ensures
        wildcard_match(p, t) <==> p == t,
    decreases p.len() + t.len(),
{
    if p.len() == 0 {
        if t.len() == 0 {
            assert(p =~= t);
        }
    } else {
        let d = p.drop_last();
        assert(!d.contains(42u8)) by {
            if d.contains(42u8) {
                let k = choose|k: int| 0 <= k < d.len() && d[k] == 42u8;
                assert(p[k] == 42u8);
            }
        }
        assert(p[p.len() - 1] != 42u8);
        if t.len() > 0 {
            law_plain_pattern_is_exact(d, t.drop_last());
            if p == t {
                assert(d =~= t.drop_last());
            }
            if d == t.drop_last() && t.last() == p.last() {
                assert(p =~= d.push(p.last()));
                assert(t =~= t.drop_last().push(t.last()));
            }
        }
    }
}

/// The UTF-8 bytes of two texts in a row are the bytes of each in a row.
pub proof fn lemma_encode_utf8_concat(a: Seq<char>, b: Seq<char>)
    ensures
        encode_utf8(a + b) == encode_utf8(a) + encode_utf8(b),
    decreases a.len(),
{
    if a.len() == 0 {
        assert(a + b =~= b);
        assert(encode_utf8(a) =~= Seq::<u8>::empty());
        assert(encode_utf8(a) + encode_utf8(b) =~= encode_utf8(b));
    } else {
        lemma_encode_utf8_concat(a.drop_first(), b);
        assert((a + b).drop_first() =~= a.drop_first() + b);
        assert((a + b)[0] == a[0]);
        assert(encode_scalar(a[0] as u32) + (encode_utf8(a.drop_first()) + encode_utf8(b))
            =~= (encode_scalar(a[0] as u32) + encode_utf8(a.drop_first())) + encode_utf8(b));
    }
}

/// `*` is the single byte 42 in UTF-8.
pub proof fn lemma_encode_star()
    ensures
        encode_utf8(seq!['*']) == seq![42u8],
{
    assert(('*' as u32) == 42u32);
    assert((42u32 & 0x7F) as u8 == 42u8) by (bit_vector);
    let c = seq!['*'];
    assert(c.drop_first() =~= Seq::<char>::empty());
    assert(c[0] == '*');
    assert(encode_utf8(c.drop_first()) =~= Seq::<u8>::empty());
    assert(has_width_1_encoding(42u32));
    assert(encode_scalar(42u32) == seq![leading_byte_width_1(42u32)]);
    assert(leading_byte_width_1(42u32) == 42u8);
    assert(encode_utf8(c) == encode_scalar(c[0] as u32) + encode_utf8(c.drop_first()));
    assert(encode_utf8(c) =~= seq![42u8]);
}

/// A `*` added at the end of a text matches the text: `vague_match` of `s`
/// followed by `*` against `s` answers true, for every `s`.
pub proof fn law_vague_trailing_star(patt: &str, s: &str)
    requires
        patt@ == s@ + seq!['*'],
    ensures
        spec_vague_match(patt, s),
{
    assert(patt@[s@.len() as int] == '*');
    assert(patt@.contains('*'));
    lemma_encode_utf8_concat(s@, seq!['*']);
    lemma_encode_star();
    law_wildcard_reflexive(s.spec_bytes());
    law_trailing_star(s.spec_bytes(), s.spec_bytes(), Seq::<u8>::empty());
    assert(encode_utf8(s@) + seq![42u8] =~= encode_utf8(s@).push(42u8));
}

/// Result of [`vague_match`]: equal strings match; otherwise a pattern
/// without `*` never matches, and one with `*` matches by [`wildcard_match`]
/// on the UTF-8 bytes.
pub open spec fn spec_vague_match(patt: &str, s: &str) -> bool {
    if patt@ == s@ {
        true
    } else if !patt@.contains('*') {
        false
    } else {
        wildcard_match(patt.spec_bytes(), s.spec_bytes())
    }
}

/// Table-driven wildcard matching, one row of the table per byte of `t`.
fn wildcard_match_bytes(p: &[u8], t: &[u8]) -> (r: bool)
    ensures
        r == wildcard_match(p@, t@),
{
    let n = p.len();
    let m = t.len();
    // Row 0: the pattern prefix matches the empty text iff it is all stars.
    let mut prev: Vec<bool> = Vec::new();
    prev.push(true);
    assert(p@.take(0).len() == 0 && t@.take(0).len() == 0);
    let mut j: usize = 0;
    while j < n
        invariant
            n == p@.len(),
            j <= n,
            prev@.len() == j + 1,
            forall|k: int| 0 <= k <= j ==> prev@[k] == wildcard_match(#[trigger] p@.take(k), t@.take(0)),
        decreases n - j,
    {
        let ghost pj = p@.take(j + 1);
        assert(pj.drop_last() =~= p@.take(j as int));
        assert(pj.last() == p@[j as int]);
        let v = p[j] == 42u8 && prev[j];
        prev.push(v);
        j += 1;
    }
    let mut i: usize = 0;
    while i < m
        invariant
            n == p@.len(),
            m == t@.len(),
            i <= m,
            prev@.len() == n + 1,
            forall|k: int| 0 <= k <= n ==> prev@[k] == wildcard_match(#[trigger] p@.take(k), t@.take(i as int)),
        decreases m - i,
    {
        let ghost ti = t@.take(i + 1);
        assert(ti.drop_last() =~= t@.take(i as int));
        assert(ti.last() == t@[i as int]);
        let mut cur: Vec<bool> = Vec::new();
        cur.push(false);
        assert(p@.take(0).len() == 0);
        let mut j: usize = 0;
        while j < n
            invariant
                n == p@.len(),
                m == t@.len(),
                i < m,
                j <= n,
                ti == t@.take(i + 1),
                ti.drop_last() == t@.take(i as int),
                ti.len() > 0,
                ti.last() == t@[i as int],
                prev@.len() == n + 1,
                forall|k: int| 0 <= k <= n ==> prev@[k] == wildcard_match(#[trigger] p@.take(k), t@.take(i as int)),
                cur@.len() == j + 1,
                forall|k: int| 0 <= k <= j ==> cur@[k] == wildcard_match(#[trigger] p@.take(k), ti),
            decreases n - j,
        {
            let ghost pj = p@.take(j + 1);
            assert(pj.drop_last() =~= p@.take(j as int));
            assert(pj.last() == p@[j as int]);
            let v = if p[j] == 42u8 {
                cur[j] || prev[j + 1]
            } else if t[i] == p[j] {
                prev[j]
            } else {
                false
            };
            cur.push(v);
            j += 1;
        }
        prev = cur;
        i += 1;
    }
    assert(p@.take(n as int) =~= p@);
    assert(t@.take(m as int) =~= t@);
    prev[n]
}

/// The pieces of `s` between the separators `sep` (always at least one).
pub open spec fn split_on(s: Seq<char>, sep: char) -> Seq<Seq<char>>
    decreases s.len(),
{
    if s.len() == 0 {
        seq![Seq::<char>::empty()]
    } else {
        let r = split_on(s.drop_last(), sep);
        if s.last() == sep {
            r.push(Seq::<char>::empty())
        } else {
            r.update(r.len() - 1, r.last().push(s.last()))
        }
    }
}

/// The trimmed pieces that are not empty, in order.
pub open spec fn trimmed_non_empty(parts: Seq<Seq<char>>) -> Seq<Seq<char>>
    decreases parts.len(),
{
    if parts.len() == 0 {
        Seq::empty()
    } else {
        let r = trimmed_non_empty(parts.drop_last());
        let t = trim(parts.last());
        if t.len() > 0 {
            r.push(t)
        } else {
            r
        }
    }
}

/// The comma-separated items of `s`, trimmed, without empty items.
pub open spec fn spec_string_to_list(s: Seq<char>) -> Seq<Seq<char>> {
    trimmed_non_empty(split_on(s, ','))
}

/// An item that survives a round trip through comma-separated text: not
/// empty, no comma, no white space at either end.
pub open spec fn clean_item(x: Seq<char>) -> bool {
    x.len() > 0 && !x.contains(',') && !is_ws(x[0]) && !is_ws(x.last())
}

/// Appending text without the separator extends the last piece.
proof fn lemma_split_on_append(s: Seq<char>, x: Seq<char>, sep: char)
    requires
        !x.contains(sep),
    ensures
        split_on(s + x, sep) == split_on(s, sep).update(split_on(s, sep).len() - 1, split_on(s, sep).last() + x),
    decreases x.len(),
{
    lemma_split_on_len(s, sep);
    if x.len() == 0 {
        assert(s + x =~= s);
        assert(split_on(s, sep).last() + x =~= split_on(s, sep).last());
        assert(split_on(s, sep).update(split_on(s, sep).len() - 1, split_on(s, sep).last()) =~= split_on(s, sep));
    } else {
        let y = x.drop_last();
        assert(!y.contains(sep)) by {
            if y.contains(sep) {
                let k = choose|k: int| 0 <= k < y.len() && y[k] == sep;
                assert(x[k] == sep);
            }
        }
        lemma_split_on_append(s, y, sep);
        assert((s + x).drop_last() =~= s + y);
        assert((s + x).last() == x.last());
        assert(x.last() != sep) by {
            assert(x[x.len() - 1] == x.last());
        }
        let r = split_on(s, sep);
        assert(split_on(s + y, sep).last() + seq![x.last()] =~= r.last() + x) by {
            assert((r.last() + y).push(x.last()) =~= r.last() + x);
        }
        assert(split_on(s + x, sep) =~= r.update(r.len() - 1, r.last() + x));
    }
}

/// Splitting comma-joined items without commas gives the items back.
proof fn lemma_split_join(l: Seq<Seq<char>>)
    requires
        l.len() > 0,
        forall|i: int| 0 <= i < l.len() ==> !(#[trigger] l[i]).contains(','),
    ensures
        split_on(join(l, ","@), ',') == l,
    decreases l.len(),
{
    reveal_strlit(",");
    if l.len() == 1 {
        lemma_split_on_append(Seq::<char>::empty(), l[0], ',');
        assert(Seq::<char>::empty() + l[0] =~= l[0]);
        assert(Seq::<char>::empty() + l[0] =~= l[0]);
        assert(seq![Seq::<char>::empty()].update(0, Seq::<char>::empty() + l[0]) =~= l);
    } else {
        let d = l.drop_last();
        assert forall|i: int| 0 <= i < d.len() implies !(#[trigger] d[i]).contains(',') by {
            assert(d[i] == l[i]);
        }
        lemma_split_join(d);
        let p = join(d, ","@) + ","@;
        assert(split_on(p, ',') =~= d.push(Seq::<char>::empty())) by {
            assert(p.drop_last() =~= join(d, ","@));
            assert(p.last() == ',');
        }
        assert(!l.last().contains(',')) by {
            assert(l[l.len() - 1] == l.last());
        }
        lemma_split_on_append(p, l.last(), ',');
        assert(Seq::<char>::empty() + l.last() =~= l.last());
        assert(d.push(Seq::<char>::empty()).update(d.len() as int, Seq::<char>::empty() + l.last()) =~= l);
    }
}

/// A clean item is its own trim.
proof fn lemma_trim_clean(x: Seq<char>)
    requires
        clean_item(x),
    ensures
        trim(x) == x,
{
    assert(trim_start(x) == x);
    assert(trim_end(x) == x);
}

/// Trimming clean items and dropping empty ones keeps them all.
proof fn lemma_trimmed_clean(l: Seq<Seq<char>>)
    requires
        forall|i: int| 0 <= i < l.len() ==> clean_item(#[trigger] l[i]),
    ensures
        trimmed_non_empty(l) == l,
    decreases l.len(),
{
    if l.len() > 0 {
        let d = l.drop_last();
        assert forall|i: int| 0 <= i < d.len() implies clean_item(#[trigger] d[i]) by {
            assert(d[i] == l[i]);
        }
        lemma_trimmed_clean(d);
        assert(clean_item(l[l.len() - 1]));
        lemma_trim_clean(l.last());
        assert(d.push(l.last()) =~= l);
    }
}

/// No piece of a split holds the separator.
proof fn lemma_split_pieces_lack_sep(s: Seq<char>, sep: char)
    ensures
        forall|i: int| 0 <= i < split_on(s, sep).len() ==> !(#[trigger] split_on(s, sep)[i]).contains(sep),
    decreases s.len(),
{
    if s.len() > 0 {
        let d = s.drop_last();
        lemma_split_pieces_lack_sep(d, sep);
        lemma_split_on_len(d, sep);
        let r = split_on(d, sep);
        if s.last() == sep {
            assert forall|i: int| 0 <= i < split_on(s, sep).len() implies !(#[trigger] split_on(s, sep)[i]).contains(sep) by {
                if i < r.len() {
                    assert(split_on(s, sep)[i] == r[i]);
                } else {
                    assert(split_on(s, sep)[i] =~= Seq::<char>::empty());
                }
            }
        } else {
            assert forall|i: int| 0 <= i < split_on(s, sep).len() implies !(#[trigger] split_on(s, sep)[i]).contains(sep) by {
                if i < r.len() - 1 {
                    assert(split_on(s, sep)[i] == r[i]);
                } else {
                    let p = r.last().push(s.last());
                    assert(split_on(s, sep)[i] == p);
                    assert(!r[r.len() - 1].contains(sep));
                    if p.contains(sep) {
                        let k = choose|k: int| 0 <= k < p.len() && p[k] == sep;
                        if k < r.last().len() {
                            assert(r.last()[k] == sep);
                        }
                    }
                }
            }
        }
    }
}

/// Dropping leading white space keeps a suffix that starts with no white
/// space.
proof fn lemma_trim_start_suffix(x: Seq<char>)
    ensures
        trim_start(x).len() <= x.len(),
        trim_start(x) == x.subrange(x.len() - trim_start(x).len(), x.len() as int),
        trim_start(x).len() > 0 ==> !is_ws(trim_start(x)[0]),
    decreases x.len(),
{
    if x.len() > 0 && is_ws(x[0]) {
        lemma_trim_start_suffix(x.drop_first());
        let t = trim_start(x.drop_first());
        assert(x.drop_first().subrange(x.drop_first().len() - t.len(), x.drop_first().len() as int)
            =~= x.subrange(x.len() - t.len(), x.len() as int));
    } else {
        assert(x.subrange(0, x.len() as int) =~= x);
    }
}

/// Dropping trailing white space keeps a prefix that ends with no white
/// space.
proof fn lemma_trim_end_prefix(x: Seq<char>)
    ensures
        trim_end(x).len() <= x.len(),
        trim_end(x) == x.subrange(0, trim_end(x).len() as int),
        trim_end(x).len() > 0 ==> !is_ws(trim_end(x).last()),
    decreases x.len(),
{
    if x.len() > 0 && is_ws(x.last()) {
        lemma_trim_end_prefix(x.drop_last());
        let t = trim_end(x.drop_last());
        assert(x.drop_last().subrange(0, t.len() as int) =~= x.subrange(0, t.len() as int));
    } else {
        assert(x.subrange(0, x.len() as int) =~= x);
    }
}

/// A non-empty trimmed piece without the separator is a clean item.
proof fn lemma_trim_is_clean(x: Seq<char>)
    requires
        !x.contains(','),
        trim(x).len() > 0,
    ensures
        clean_item(trim(x)),
{
    lemma_trim_start_suffix(x);
    let a = trim_start(x);
    lemma_trim_end_prefix(a);
    let t = trim_end(a);
    assert(t[0] == a[0]);
    if t.contains(',') {
        let k = choose|k: int| 0 <= k < t.len() && t[k] == ',';
        assert(a[k] == ',');
        assert(x[x.len() - a.len() + k] == ',');
    }
}

/// Every item kept by trimming the pieces and dropping empty ones is the
/// trimmed form of one of the pieces, and is not empty.
proof fn lemma_trimmed_items(parts: Seq<Seq<char>>)
    ensures
        forall|i: int| 0 <= i < trimmed_non_empty(parts).len() ==> {
            &&& (#[trigger] trimmed_non_empty(parts)[i]).len() > 0
            &&& exists|j: int| 0 <= j < parts.len() && trimmed_non_empty(parts)[i] == trim(#[trigger] parts[j])
        },
    decreases parts.len(),
{
    if parts.len() > 0 {
        let d = parts.drop_last();
        lemma_trimmed_items(d);
        let r = trimmed_non_empty(d);
        assert forall|i: int| 0 <= i < trimmed_non_empty(parts).len() implies {
            &&& (#[trigger] trimmed_non_empty(parts)[i]).len() > 0
            &&& exists|j: int| 0 <= j < parts.len() && trimmed_non_empty(parts)[i] == trim(#[trigger] parts[j])
        } by {
            if i < r.len() {
                assert(trimmed_non_empty(parts)[i] == r[i]);
                let j = choose|j: int| 0 <= j < d.len() && r[i] == trim(#[trigger] d[j]);
                assert(parts[j] == d[j]);
            } else {
                assert(trimmed_non_empty(parts)[i] == trim(parts.last()));
                assert(parts[parts.len() - 1] == parts.last());
            }
        }
    }
}

/// Every item of a list read from comma-separated text is clean: not
/// empty, without a comma, and without white space at either end.
pub proof fn lemma_list_items_clean(s: Seq<char>)
    ensures
        forall|i: int| 0 <= i < spec_string_to_list(s).len() ==> clean_item(#[trigger] spec_string_to_list(s)[i]),
{
    let parts = split_on(s, ',');
    lemma_split_pieces_lack_sep(s, ',');
    lemma_trimmed_items(parts);
    assert forall|i: int| 0 <= i < spec_string_to_list(s).len() implies clean_item(#[trigger] spec_string_to_list(s)[i]) by {
        let j = choose|j: int| 0 <= j < parts.len() && trimmed_non_empty(parts)[i] == trim(#[trigger] parts[j]);
        lemma_trim_is_clean(parts[j]);
    }
}

/// Converting a list to comma-separated text and back gives the list back,
/// when its items are clean (see [`clean_item`]): `convert_string_to_list`
/// undoes `convert_list_to_string`.
pub proof fn lemma_list_text_round_trip(l: Seq<Seq<char>>)
    requires
        forall|i: int| 0 <= i < l.len() ==> clean_item(#[trigger] l[i]),
    ensures
        spec_string_to_list(join(l, ","@)) == l,
{
    if l.len() == 0 {
        let e = Seq::<char>::empty();
        assert(join(l, ","@) =~= e);
        assert(split_on(e, ',') == seq![e]);
        assert(seq![e].drop_last() =~= Seq::<Seq<char>>::empty());
        assert(seq![e].last() == e);
        assert(trim_start(e) == e);
        assert(trim_end(e) == e);
        assert(trim(e) == e);
        assert(trimmed_non_empty(seq![e].drop_last()) == Seq::<Seq<char>>::empty());
        assert(trimmed_non_empty(seq![e]) =~= Seq::<Seq<char>>::empty());
        assert(spec_string_to_list(join(l, ","@)) =~= l);
    } else {
        assert forall|i: int| 0 <= i < l.len() implies !(#[trigger] l[i]).contains(',') by {
            assert(clean_item(l[i]));
        }
        lemma_split_join(l);
        lemma_trimmed_clean(l);
    }
}

/// Splitting always yields at least one piece.
pub proof fn lemma_split_on_len(s: Seq<char>, sep: char)
    ensures
        split_on(s, sep).len() >= 1,
    decreases s.len(),
{
    if s.len() > 0 {
        lemma_split_on_len(s.drop_last(), sep);
    }
}

/// Page of `list`: reversed first unless `sort_type`, then from `start`
/// (negative counts as 0) at most `size` items (negative means all).
pub open spec fn spec_page(list: Seq<Seq<char>>, start: i32, size: i32, sort_type: bool) -> Seq<Seq<char>> {
    let l = if sort_type { list } else { list.reverse() };
    let st: int = if start < 0 { 0 } else { start as int };
    let end: int = if size < 0 { l.len() as int } else { st + size };
    let lo: int = if st < l.len() { st } else { l.len() as int };
    let hi: int = if end < l.len() { end } else { l.len() as int };
    l.subrange(lo, hi)
}

/// Items of `data` that begin with `prefix` and contain `keyword`.
pub open spec fn spec_search_filter(data: Seq<Seq<char>>, prefix: Seq<char>, keyword: Seq<char>) -> Seq<Seq<char>> {
    data.filter(|k: Seq<char>| has_prefix(k, prefix) && has_infix(k, keyword))
}

/// Whether the list holds a string equal to `item`.
pub fn list_contains(list: &[String], item: &str) -> (r: bool)
    ensures
        r == views(list@).contains(item@),
{
    let mut i: usize = 0;
    while i < list.len()
        invariant
            i <= list@.len(),
            forall|j: int| 0 <= j < i ==> list@[j]@ != item@,
        decreases list@.len() - i,
    {
        if str_eq(list[i].as_str(), item) {
            assert(views(list@)[i as int] == item@);
            return true;
        }
        i += 1;
    }
    assert(!views(list@).contains(item@)) by {
        if views(list@).contains(item@) {
            let j = choose|j: int| 0 <= j < views(list@).len() && views(list@)[j] == item@;
            assert(list@[j]@ == item@);
        }
    }
    false
}

/// Bytes that URL encoding leaves as they are: ASCII letters and digits and
/// `-`, `.`, `_`, `~`.
pub open spec fn url_safe(b: u8) -> bool {
    (48 <= b <= 57) || (65 <= b <= 90) || (97 <= b <= 122) || b == 45 || b == 46 || b == 95 || b == 126
}

/// Percent-encoding of bytes: safe bytes stay, every other byte becomes `%`
/// and two upper-case hex digits.
pub open spec fn url_encode_bytes(b: Seq<u8>) -> Seq<char>
    decreases b.len(),
{
    if b.len() == 0 {
        Seq::empty()
    } else {
        let head = if url_safe(b[0]) {
            seq![b[0] as char]
        } else {
            seq!['%', hex_char((b[0] / 16) as int, true), hex_char((b[0] % 16) as int, true)]
        };
        head + url_encode_bytes(b.drop_first())
    }
}

/// Percent-decoding of bytes: `%` followed by two hex digits (either case)
/// becomes that byte; everything else, `+` included, stays.
pub open spec fn url_decode_bytes(b: Seq<u8>) -> Seq<u8>
    decreases b.len(),
{
    if b.len() == 0 {
        Seq::empty()
    } else if b[0] == 37 && b.len() >= 3 && hex_val(b[1]) is Some && hex_val(b[2]) is Some {
        seq![(hex_val(b[1])->0 * 16 + hex_val(b[2])->0) as u8] + url_decode_bytes(b.subrange(3, b.len() as int))
    } else {
        seq![b[0]] + url_decode_bytes(b.drop_first())
    }
}

/// Result of [`decode_url`]: the decoded text when the decoded bytes are
/// valid UTF-8, else the input unchanged.
pub open spec fn spec_decode_url(s: &str) -> Seq<char> {
    let d = url_decode_bytes(s.spec_bytes());
    if valid_utf8(d) { decode_utf8(d) } else { s@ }
}

/// Pattern of the texts that count as URLs.
pub open spec fn url_pattern() -> Seq<char> {
    "(?i)(https?|ftp|file)://[-A-Za-z0-9+&@#/%?=~_|!:,.;]+[-A-Za-z0-9+&@#/%=~_|]"@
}

/// Whether `text` matches the regular expression `pattern` (`None` when the
/// pattern does not compile), as the `regex` crate decides it.
pub uninterp spec fn regex_matches(pattern: Seq<char>, text: Seq<char>) -> Option<bool>;

/// A uniformly random index below `n` (`rand::rng().random_range(0..n)`).
/// The contract claims only that the result lies in the range.
#[verifier::external_body]
fn random_index(n: usize) -> (r: usize)
    requires
        n > 0,
    ensures
        r < n,
{
    rand::rng().random_range(0..n)
}

/// A uniformly random integer in `lo..=hi` (`random_range(lo..=hi)`).
/// The contract claims only that the result lies in the range.
#[verifier::external_body]
fn random_between(lo: i32, hi: i32) -> (r: i32)
    requires
        lo <= hi,
    ensures
        lo <= r <= hi,
{
    rand::rng().random_range(lo..=hi)
}

/// Sixteen random bytes (`rng.random::<[u8; 16]>()`); nothing is claimed of
/// their values.
#[verifier::external_body]
fn random_bytes16() -> (r: Vec<u8>)
    ensures
        r@.len() == 16,
{
    let bytes: [u8; 16] = rand::rng().random();
    bytes.to_vec()
}

/// Seconds since the Unix epoch from the system clock (`chrono::Utc::now().timestamp()`).
/// Nothing is claimed of the value.
#[verifier::external_body]
fn utc_seconds() -> i64 {
    chrono::Utc::now().timestamp()
}

/// Milliseconds since the Unix epoch from the system clock
/// (`chrono::Utc::now().timestamp_millis()`). Nothing is claimed of the value.
#[verifier::external_body]
fn utc_millis() -> i64 {
    chrono::Utc::now().timestamp_millis()
}

/// `yyyy-MM-dd HH:mm:ss` text of a second timestamp in the machine's time
/// zone (`chrono::Local.timestamp_opt(..).single()` then `format`); `None`
/// when the time is ambiguous or out of range. The text depends on the time
/// zone, so nothing is claimed of it.
#[verifier::external_body]
fn local_date_text(secs: i64) -> (r: Option<String>) {
    chrono::Local.timestamp_opt(secs, 0).single().map(|dt| dt.format("%Y-%m-%d %H:%M:%S").to_string())
}

/// `urlencoding::encode`: percent-encodes every byte of the UTF-8 text
/// except ASCII letters, digits and `-`, `.`, `_`, `~`, with upper-case hex.
#[verifier::external_body]
fn url_encode(s: &str) -> (r: String)
    ensures
        r@ == url_encode_bytes(s.spec_bytes()),
{
    urlencoding::encode(s).into_owned()
}

/// `urlencoding::decode`: decodes `%XX` escapes on the bytes, then reads
/// the bytes as UTF-8; `None` when they are not valid UTF-8.
#[verifier::external_body]
fn url_decode(s: &str) -> (r: Option<String>)
    ensures
        r is Some <==> valid_utf8(url_decode_bytes(s.spec_bytes())),
        r matches Some(x) ==> x@ == decode_utf8(url_decode_bytes(s.spec_bytes())),
{
    match urlencoding::decode(s) {
        Ok(cow) => Some(cow.into_owned()),
        Err(_) => None,
    }
}

/// `regex::Regex::new(pattern)` then `is_match(text)`; `None` when the
/// pattern does not compile.
#[verifier::external_body]
fn regex_is_match(pattern: &str, text: &str) -> (r: Option<bool>)
    ensures
        r == regex_matches(pattern@, text@),
{
    match regex::Regex::new(pattern) {
        Ok(re) => Some(re.is_match(text)),
        Err(_) => None,
    }
}

/// The letters and digits that random strings are drawn from.
pub open spec fn is_alnum(c: char) -> bool {
    ('a' <= c && c <= 'z') || ('A' <= c && c <= 'Z') || ('0' <= c && c <= '9')
}

/// Random string of `len` ASCII letters and digits.
pub fn random_string(len: usize) -> (r: String)
    ensures
        r@.len() == len,
        forall|i: int| 0 <= i < len ==> is_alnum(#[trigger] r@[i]),
{
    let alphabet = chars_of("abcdefghijklmnopqrstuvwxyzABCDEFGHIJKLMNOPQRSTUVWXYZ0123456789");
    proof {
        reveal_strlit("abcdefghijklmnopqrstuvwxyzABCDEFGHIJKLMNOPQRSTUVWXYZ0123456789");
    }
    assert(alphabet@.len() == 62);
    assert forall|k: int| 0 <= k < 62 implies is_alnum(#[trigger] alphabet@[k]) by {}
    let mut r = String::new();
    let mut i: usize = 0;
    while i < len
        invariant
            alphabet@.len() == 62,
            forall|k: int| 0 <= k < 62 ==> is_alnum(#[trigger] alphabet@[k]),
            i <= len,
            r@.len() == i,
            forall|k: int| 0 <= k < i ==> is_alnum(#[trigger] r@[k]),
        decreases len - i,
    {
        let k = random_index(62);
        push_char(&mut r, alphabet[k]);
        i += 1;
    }
    r
}

/// Random integer between the two bounds, both included, in either order.
pub fn random_number(min: i32, max: i32) -> (r: i32)
    ensures
        if min <= max { min <= r <= max } else { max <= r <= min },
{
    if min <= max { random_between(min, max) } else { random_between(max, min) }
}

/// Seconds since the Unix epoch, from the system clock.
pub fn now_timestamp() -> i64 {
    utc_seconds()
}

/// Milliseconds since the Unix epoch, from the system clock.
pub fn now_timestamp_millis() -> i64 {
    utc_millis()
}

/// `yyyy-MM-dd HH:mm:ss` text of a second timestamp in local time; the
/// empty string when the time cannot be shown.
pub fn format_date_timestamp(secs: i64) -> String {
    match local_date_text(secs) {
        Some(s) => s,
        None => String::new(),
    }
}

/// Local time text of the moment `ms` milliseconds from now.
pub fn format_after_date(ms: i64) -> String {
    let target: i64 = utc_millis().wrapping_add(ms);
    let secs: i64 = if target >= 0 { target / 1000 } else { 0 - ((0 - (target as i128)) / 1000) as i64 };
    format_date_timestamp(secs)
}

/// The current time in milliseconds followed by a random non-negative number.
pub fn get_marking28() -> (r: String)
    ensures
        exists|t: i64, n: i32| 0 <= n && r@ == crate::num::int_text(t as int) + crate::num::int_text(n as int),
{
    let t = now_timestamp_millis();
    let n = random_number(0, 2147483647);
    let mut r = int_to_string(t);
    let tail = int_to_string(n as i64);
    r.append(tail.as_str());
    r
}

/// 32 random lower-case hex digits (16 random bytes).
pub fn random_uuid() -> (r: String)
    ensures
        exists|b: Seq<u8>| b.len() == 16 && r@ == hex_text(b, false),
{
    let bytes = random_bytes16();
    hex_string(bytes.as_slice(), false)
}

/// URL encoding (UTF-8, upper-case hex).
pub fn encode_url(url: &str) -> (r: String)
    ensures
        r@ == url_encode_bytes(url.spec_bytes()),
{
    url_encode(url)
}

/// URL decoding; input whose decoded bytes are not UTF-8 is returned as it is.
pub fn decode_url(url: &str) -> (r: String)
    ensures
        r@ == spec_decode_url(url),
{
    match url_decode(url) {
        Some(s) => s,
        None => url.to_owned(),
    }
}

/// Whether the text is a non-empty URL of scheme http, https, ftp or file.
pub fn is_url(s: &str) -> (r: bool)
    ensures
        r == (s@.len() > 0 && regex_matches(url_pattern(), s@) == Some(true)),
{
    if is_empty(s) {
        return false;
    }
    match regex_is_match("(?i)(https?|ftp|file)://[-A-Za-z0-9+&@#/%?=~_|!:,.;]+[-A-Za-z0-9+&@#/%=~_|]", s) {
        Some(b) => b,
        None => false,
    }
}

/// The URL encoding of bytes consists of ASCII characters.
proof fn lemma_url_encode_ascii(b: Seq<u8>)
    ensures
        is_ascii_chars(url_encode_bytes(b)),
    decreases b.len(),
{
    if b.len() > 0 {
        lemma_url_encode_ascii(b.drop_first());
        let head = if url_safe(b[0]) {
            seq![b[0] as char]
        } else {
            seq!['%', hex_char((b[0] / 16) as int, true), hex_char((b[0] % 16) as int, true)]
        };
        let e = url_encode_bytes(b);
        assert(e == head + url_encode_bytes(b.drop_first()));
        assert forall|i: int| 0 <= i < e.len() implies '\0' <= #[trigger] e[i] <= '\u{7f}' by {
            if i >= head.len() {
                assert(e[i] == url_encode_bytes(b.drop_first())[i - head.len()]);
            }
        }
    }
}

/// Decoding the byte codes of the URL encoding gives the bytes back.
proof fn lemma_url_decode_encode_bytes(b: Seq<u8>)
    ensures
        url_decode_bytes(url_encode_bytes(b).map_values(|c: char| c as u8)) == b,
    decreases b.len(),
{
    if b.len() == 0 {
        assert(url_encode_bytes(b).map_values(|c: char| c as u8) =~= Seq::<u8>::empty());
        assert(b =~= Seq::<u8>::empty());
    } else {
        let rest = b.drop_first();
        lemma_url_decode_encode_bytes(rest);
        let tail = url_encode_bytes(rest).map_values(|c: char| c as u8);
        let codes = url_encode_bytes(b).map_values(|c: char| c as u8);
        if url_safe(b[0]) {
            assert(codes =~= seq![b[0]] + tail);
            assert(codes[0] == b[0]);
            assert(codes.drop_first() =~= tail);
            assert(url_decode_bytes(codes) == seq![b[0]] + url_decode_bytes(codes.drop_first()));
        } else {
            let h = (b[0] / 16) as int;
            let l = (b[0] % 16) as int;
            assert(codes =~= seq![37u8, hex_char(h, true) as u8, hex_char(l, true) as u8] + tail);
            crate::util::hex_util::lemma_hex_char_val(h);
            crate::util::hex_util::lemma_hex_char_val(l);
            assert(codes.subrange(3, codes.len() as int) =~= tail);
            assert(hex_val(codes[1]) == Some(h as u8));
            assert(hex_val(codes[2]) == Some(l as u8));
            assert(((h as u8) * 16 + (l as u8)) as u8 == b[0]);
            assert(url_decode_bytes(codes) == seq![b[0]] + url_decode_bytes(codes.subrange(3, codes.len() as int)));
        }
        assert(seq![b[0]] + rest =~= b);
    }
}

/// Decoding the URL encoding of any text gives the text back.
pub proof fn lemma_decode_url_encode_url(s: Seq<char>)
    ensures
        valid_utf8(url_decode_bytes(encode_utf8(url_encode_bytes(encode_utf8(s))))),
        decode_utf8(url_decode_bytes(encode_utf8(url_encode_bytes(encode_utf8(s))))) == s,
{
    let b = encode_utf8(s);
    let e = url_encode_bytes(b);
    lemma_url_encode_ascii(b);
    is_ascii_chars_encode_utf8(e);
    assert(encode_utf8(e) =~= e.map_values(|c: char| c as u8));
    lemma_url_decode_encode_bytes(b);
    encode_utf8_valid_utf8(s);
    encode_utf8_decode_utf8(s);
}

/// Whether the string is empty.
pub fn is_empty(s: &str) -> (r: bool)
    ensures
        r == (s@.len() == 0),
{
    s.is_empty()
}

/// Whether the string is not empty.
pub fn is_not_empty(s: &str) -> (r: bool)
    ensures
        r == (s@.len() > 0),
{
    !s.is_empty()
}

/// Whether the string holds an ASCII control character (code 0..=31 or 127).
pub fn has_non_printable_ascii(s: &str) -> (r: bool)
    ensures
        r == spec_has_non_printable_ascii(s@),
{
    let cs = chars_of(s);
    let mut i: usize = 0;
    while i < cs.len()
        invariant
            cs@ == s@,
            i <= cs@.len(),
            forall|j: int| 0 <= j < i ==> !((#[trigger] cs@[j]) as u32 <= 31 || cs@[j] as u32 == 127),
        decreases cs@.len() - i,
    {
        let code = cs[i] as u32;
        if code <= 31 || code == 127 {
            assert(s@[i as int] as u32 <= 31 || s@[i as int] as u32 == 127);
            return true;
        }
        i += 1;
    }
    false
}

/// Whether the slice is empty.
pub fn is_empty_array<T>(arr: &[T]) -> (r: bool)
    ensures
        r == (arr@.len() == 0),
{
    arr.len() == 0
}

/// Whether the list of strings is empty.
pub fn is_empty_list(list: &[String]) -> (r: bool)
    ensures
        r == (list@.len() == 0),
{
    list.len() == 0
}

/// Whether two strings are equal.
pub fn equals(a: &str, b: &str) -> (r: bool)
    ensures
        r == (a@ == b@),
{
    str_eq(a, b)
}

/// Whether two strings differ.
pub fn not_equals(a: &str, b: &str) -> (r: bool)
    ensures
        r == (a@ != b@),
{
    !str_eq(a, b)
}

/// Attaches a query string to a URL: after `?`, adding a `&` separator when
/// the URL already carries parameters.
pub fn join_param(url: &str, param_str: &str) -> (r: String)
    ensures
        r@ == spec_join_with_mark(url@, param_str@, '?'),
{
    join_with_mark(url, param_str, '?')
}

/// Attaches `key=value` to the query string of a URL; an empty URL or key
/// leaves the URL unchanged.
pub fn join_param_kv(url: &str, key: &str, value: &str) -> (r: String)
    ensures
        r@ == (if url@.len() == 0 || key@.len() == 0 {
            url@
        } else {
            spec_join_with_mark(url@, key@ + seq!['='] + value@, '?')
        }),
{
    if is_empty(url) || is_empty(key) {
        return url.to_owned();
    }
    let mut kv: String = key.to_owned();
    push_char(&mut kv, '=');
    kv.append(value);
    join_param(url, kv.as_str())
}

/// Attaches parameters to the fragment of a URL, after `#`.
pub fn join_sharp_param(url: &str, param_str: &str) -> (r: String)
    ensures
        r@ == spec_join_with_mark(url@, param_str@, '#'),
{
    join_with_mark(url, param_str, '#')
}

/// Concatenates two URLs; an empty side yields the other, and an absolute
/// `url2` (starting with `http`) wins.
pub fn splice_two_url(url1: &str, url2: &str) -> (r: String)
    ensures
        r@ == spec_splice_two_url(url1@, url2@),
{
    if is_empty(url1) {
        url2.to_owned()
    } else if is_empty(url2) {
        url1.to_owned()
    } else if starts_with(url2, "http") {
        url2.to_owned()
    } else {
        let mut r: String = url1.to_owned();
        r.append(url2);
        r
    }
}

/// Pattern matching with `*` as a wildcard for any run of characters.
pub fn vague_match(patt: &str, s: &str) -> (r: bool)
    ensures
        r == spec_vague_match(patt, s),
{
    if str_eq(patt, s) {
        return true;
    }
    if !contains_char(patt, '*') {
        return false;
    }
    wildcard_match_bytes(patt.as_bytes(), s.as_bytes())
}

/// Splits on commas, trims each item and drops empty items.
pub fn convert_string_to_list(s: &str) -> (r: Vec<String>)
    ensures
        views(r@) == spec_string_to_list(s@),
{
    let cs = chars_of(s);
    let mut out: Vec<String> = Vec::new();
    let mut cur: Vec<char> = Vec::new();
    let mut i: usize = 0;
    proof {
        lemma_split_on_len(cs@.take(0), ',');
        assert(cs@.take(0) =~= Seq::<char>::empty());
        assert(split_on(cs@.take(0), ',').drop_last() =~= Seq::<Seq<char>>::empty());
    }
    while i < cs.len()
        invariant
            cs@ == s@,
            i <= cs@.len(),
            split_on(cs@.take(i as int), ',').len() >= 1,
            views(out@) == trimmed_non_empty(split_on(cs@.take(i as int), ',').drop_last()),
            cur@ == split_on(cs@.take(i as int), ',').last(),
        decreases cs@.len() - i,
    {
        let ghost pre = split_on(cs@.take(i as int), ',');
        let ghost post = split_on(cs@.take(i + 1), ',');
        assert(cs@.take(i + 1).drop_last() =~= cs@.take(i as int));
        assert(cs@.take(i + 1).last() == cs@[i as int]);
        let c = cs[i];
        if c == ',' {
            let t = trim_chars(&cur);
            assert(post.drop_last() =~= pre);
            if t.len() > 0 {
                out.push(string_of(t.as_slice()));
                assert(views(out@) =~= trimmed_non_empty(pre));
            } else {
                assert(views(out@) =~= trimmed_non_empty(pre));
            }
            cur = Vec::new();
        } else {
            cur.push(c);
            assert(post.drop_last() =~= pre.drop_last());
        }
        i += 1;
    }
    let ghost full = split_on(cs@, ',');
    assert(cs@.take(cs@.len() as int) =~= cs@);
    let t = trim_chars(&cur);
    if t.len() > 0 {
        out.push(string_of(t.as_slice()));
        assert(views(out@) =~= trimmed_non_empty(full));
    } else {
        assert(views(out@) =~= trimmed_non_empty(full));
    }
    out
}

/// Same as [`convert_string_to_list`].
pub fn convert_string_to_array(s: &str) -> (r: Vec<String>)
    ensures
        views(r@) == spec_string_to_list(s@),
{
    convert_string_to_list(s)
}

/// Whether every item of `list2` occurs in `list1`.
pub fn list1_contain_list2_all(list1: &[String], list2: &[String]) -> (r: bool)
    ensures
        r == (forall|j: int| 0 <= j < list2@.len() ==> views(list1@).contains(#[trigger] list2@[j]@)),
{
    if list2.len() == 0 {
        return true;
    }
    if list1.len() == 0 {
        assert(!views(list1@).contains(list2@[0]@));
        return false;
    }
    let mut i: usize = 0;
    while i < list2.len()
        invariant
            i <= list2@.len(),
            forall|j: int| 0 <= j < i ==> views(list1@).contains(#[trigger] list2@[j]@),
        decreases list2@.len() - i,
    {
        if !list_contains(list1, list2[i].as_str()) {
            return false;
        }
        i += 1;
    }
    true
}

/// Whether some item of `list2` occurs in `list1`.
pub fn list1_contain_list2_any(list1: &[String], list2: &[String]) -> (r: bool)
    ensures
        r == (exists|j: int| 0 <= j < list2@.len() && views(list1@).contains(#[trigger] list2@[j]@)),
{
    if list1.len() == 0 || list2.len() == 0 {
        return false;
    }
    let mut i: usize = 0;
    while i < list2.len()
        invariant
            i <= list2@.len(),
            forall|j: int| 0 <= j < i ==> !views(list1@).contains(#[trigger] list2@[j]@),
        decreases list2@.len() - i,
    {
        if list_contains(list1, list2[i].as_str()) {
            return true;
        }
        i += 1;
    }
    false
}

/// The items of `list1` that do not occur in `list2`, in order.
pub fn list1_remove_by_list2(list1: &[String], list2: &[String]) -> (r: Vec<String>)
    ensures
        views(r@) == views(list1@).filter(|x: Seq<char>| !views(list2@).contains(x)),
{
    let ghost pred = |x: Seq<char>| !views(list2@).contains(x);
    let mut r: Vec<String> = Vec::new();
    let mut i: usize = 0;
    while i < list1.len()
        invariant
            i <= list1@.len(),
            pred == (|x: Seq<char>| !views(list2@).contains(x)),
            views(r@) == views(list1@.subrange(0, i as int)).filter(pred),
        decreases list1@.len() - i,
    {
        proof {
            reveal(Seq::filter);
            assert(views(list1@.subrange(0, i + 1)).drop_last() =~= views(list1@.subrange(0, i as int)));
        }
        if !list_contains(list2, list1[i].as_str()) {
            r.push(list1[i].clone());
            assert(views(r@) =~= views(list1@.subrange(0, i + 1)).filter(pred));
        } else {
            assert(views(r@) =~= views(list1@.subrange(0, i + 1)).filter(pred));
        }
        i += 1;
    }
    assert(list1@.subrange(0, list1@.len() as int) =~= list1@);
    r
}

/// Keeps the items that begin with `prefix` and contain `keyword`, then pages
/// them as [`search_list_page`] does.
pub fn search_list(data_list: &[String], prefix: &str, keyword: &str, start: i32, size: i32, sort_type: bool) -> (r: Vec<String>)
    ensures
        views(r@) == spec_page(spec_search_filter(views(data_list@), prefix@, keyword@), start, size, sort_type),
{
    let ghost pred = |k: Seq<char>| has_prefix(k, prefix@) && has_infix(k, keyword@);
    let mut list: Vec<String> = Vec::new();
    let mut i: usize = 0;
    while i < data_list.len()
        invariant
            i <= data_list@.len(),
            pred == (|k: Seq<char>| has_prefix(k, prefix@) && has_infix(k, keyword@)),
            views(list@) == views(data_list@.subrange(0, i as int)).filter(pred),
        decreases data_list@.len() - i,
    {
        proof {
            reveal(Seq::filter);
            assert(views(data_list@.subrange(0, i + 1)).drop_last() =~= views(data_list@.subrange(0, i as int)));
        }
        let item = data_list[i].as_str();
        if starts_with(item, prefix) && contains_str(item, keyword) {
            list.push(data_list[i].clone());
            assert(views(list@) =~= views(data_list@.subrange(0, i + 1)).filter(pred));
        } else {
            assert(views(list@) =~= views(data_list@.subrange(0, i + 1)).filter(pred));
        }
        i += 1;
    }
    assert(data_list@.subrange(0, data_list@.len() as int) =~= data_list@);
    search_list_page(&mut list, start, size, sort_type)
}

/// A page of the list: reversed first unless `sort_type`, then the items
/// from `start` (negative counts as 0), at most `size` of them (negative
/// means no limit).
pub fn search_list_page(list: &mut [String], start: i32, size: i32, sort_type: bool) -> (r: Vec<String>)
    ensures
        views(r@) == spec_page(views(old(list)@), start, size, sort_type),
        final(list)@ == old(list)@,
{
    let n = list.len();
    let ghost l = if sort_type { views(list@) } else { views(list@).reverse() };
    let st: usize = if start < 0 { 0 } else { start as usize };
    let lo: usize = if st < n { st } else { n };
    let hi: usize = if size < 0 {
        n
    } else {
        let end: u64 = st as u64 + size as u64;
        if end < n as u64 { end as usize } else { n }
    };
    let mut r: Vec<String> = Vec::new();
    let mut k: usize = lo;
    while k < hi
        invariant
            n == list@.len(),
            lo <= k <= hi,
            hi <= n,
            l == (if sort_type { views(list@) } else { views(list@).reverse() }),
            views(r@) == l.subrange(lo as int, k as int),
        decreases hi - k,
    {
        let idx: usize = if sort_type { k } else { n - 1 - k };
        let item = list[idx].clone();
        assert(l[k as int] == item@);
        let ghost before = r@;
        r.push(item);
        assert(views(r@) =~= views(before).push(item@));
        assert(views(r@) =~= l.subrange(lo as int, k + 1));
        k += 1;
    }
    r
}

/// Whether the name is one of the basic type names.
pub fn is_basic_type(type_str: &str) -> (r: bool)
    ensures
        r == spec_is_basic_type(type_str@),
{
    str_eq(type_str, "i8") || str_eq(type_str, "i16") || str_eq(type_str, "i32")
        || str_eq(type_str, "i64") || str_eq(type_str, "i128") || str_eq(type_str, "u8")
        || str_eq(type_str, "u16") || str_eq(type_str, "u32") || str_eq(type_str, "u64")
        || str_eq(type_str, "u128") || str_eq(type_str, "f32") || str_eq(type_str, "f64")
        || str_eq(type_str, "bool") || str_eq(type_str, "char") || str_eq(type_str, "String")
        || str_eq(type_str, "&str")
}

/// Joins the list with commas; an empty list gives the empty string.
pub fn convert_list_to_string(list: &[String]) -> (r: String)
    ensures
        r@ == join(views(list@), ","@),
{
    join_strings(list, ",")
}

/// Same as [`convert_list_to_string`].
pub fn convert_array_to_string(arr: &[String]) -> (r: String)
    ensures
        r@ == join(views(arr@), ","@),
{
    convert_list_to_string(arr)
}

/// Joins string slices with commas.
pub fn array_join(arr: &[&str]) -> (r: String)
    ensures
        r@ == join(arr@.map_values(|s: &str| s@), ","@),
{
    join_strs(arr, ",")
}

/// The value, or the empty string for `None`.
pub fn value_to_string(value: Option<&str>) -> (r: String)
    ensures
        r@ == match value {
            Some(v) => v@,
            None => Seq::<char>::empty(),
        },
{
    match value {
        Some(v) => v.to_owned(),
        None => String::new(),
    }
}

/// Number of a log level name (`trace` 1 .. `fatal` 6); anything else gives 1.
pub fn translate_log_level_to_int(level: &str) -> (r: i32)
    ensures
        r == spec_log_level_to_int(level@),
        1 <= r <= 6,
{
    proof {
        lemma_level_index_range(level@, 1);
    }
    let names = log_level_names_vec();
    let mut i: usize = 1;
    while i < 7
        invariant
            1 <= i <= 7,
            names@.len() == 7,
            forall|k: int| 0 <= k < 7 ==> (#[trigger] names@[k])@ == log_level_names()[k],
            spec_log_level_to_int(level@) == level_index_from(level@, i as int),
        decreases 7 - i,
    {
        if str_eq(names[i], level) {
            return i as i32;
        }
        i += 1;
    }
    1
}

/// Name of a log level number; numbers outside 1..=6 give `trace`.
pub fn translate_log_level_to_string(level: i32) -> (r: String)
    ensures
        r@ == spec_log_level_to_string(level),
{
    let names = log_level_names_vec();
    let idx: usize = if level <= 0 || level >= 7 { 1 } else { level as usize };
    names[idx].to_owned()
}

fn log_level_names_vec() -> (r: Vec<&'static str>)
    ensures
        r@.len() == 7,
        forall|k: int| 0 <= k < 7 ==> (#[trigger] r@[k])@ == log_level_names()[k],
{
    let r = vec!["", "trace", "debug", "info", "warn", "error", "fatal"];
    assert(r@[0]@ == ""@);
    r
}


/// Helpers of this module gathered under one name.
pub struct SaFoxUtil;

impl SaFoxUtil {
    /// Random string of `len` ASCII letters and digits.
    pub fn random_string(len: usize) -> (r: String)
        ensures
            r@.len() == len,
            forall|i: int| 0 <= i < len ==> is_alnum(#[trigger] r@[i]),
    {
        random_string(len)
    }

    /// Random integer between the two bounds, both included.
    pub fn random_number(min: i32, max: i32) -> (r: i32)
        ensures
            if min <= max { min <= r <= max } else { max <= r <= min },
    {
        random_number(min, max)
    }

    /// Whether the string is empty.
    pub fn is_empty(s: &str) -> (r: bool)
        ensures
            r == (s@.len() == 0),
    {
        is_empty(s)
    }

    /// Whether the string is not empty.
    pub fn is_not_empty(s: &str) -> (r: bool)
        ensures
            r == (s@.len() > 0),
    {
        is_not_empty(s)
    }

    /// Whether the string holds an ASCII control character.
    pub fn has_non_printable_ascii(s: &str) -> (r: bool)
        ensures
            r == spec_has_non_printable_ascii(s@),
    {
        has_non_printable_ascii(s)
    }

    /// Whether two strings are equal.
    pub fn equals(a: &str, b: &str) -> (r: bool)
        ensures
            r == (a@ == b@),
    {
        equals(a, b)
    }

    /// Whether two strings differ.
    pub fn not_equals(a: &str, b: &str) -> (r: bool)
        ensures
            r == (a@ != b@),
    {
        not_equals(a, b)
    }

    /// Seconds since the Unix epoch.
    pub fn now_timestamp() -> i64 {
        now_timestamp()
    }

    /// Milliseconds since the Unix epoch.
    pub fn now_timestamp_millis() -> i64 {
        now_timestamp_millis()
    }

    /// Attaches a query string to a URL.
    pub fn join_param(url: &str, param_str: &str) -> (r: String)
        ensures
            r@ == spec_join_with_mark(url@, param_str@, '?'),
    {
        join_param(url, param_str)
    }

    /// Attaches `key=value` to the query string of a URL.
    pub fn join_param_kv(url: &str, key: &str, value: &str) -> (r: String)
        ensures
            r@ == (if url@.len() == 0 || key@.len() == 0 {
                url@
            } else {
                spec_join_with_mark(url@, key@ + seq!['='] + value@, '?')
            }),
    {
        join_param_kv(url, key, value)
    }

    /// Attaches parameters to the fragment of a URL.
    pub fn join_sharp_param(url: &str, param_str: &str) -> (r: String)
        ensures
            r@ == spec_join_with_mark(url@, param_str@, '#'),
    {
        join_sharp_param(url, param_str)
    }

    /// Concatenates two URLs.
    pub fn splice_two_url(url1: &str, url2: &str) -> (r: String)
        ensures
            r@ == spec_splice_two_url(url1@, url2@),
    {
        splice_two_url(url1, url2)
    }

    /// Pattern matching with `*` as a wildcard.
    pub fn vague_match(patt: &str, s: &str) -> (r: bool)
        ensures
            r == spec_vague_match(patt, s),
    {
        vague_match(patt, s)
    }

    /// Local time text of a second timestamp.
    pub fn format_date_timestamp(secs: i64) -> String {
        format_date_timestamp(secs)
    }

    /// Local time text of the moment `ms` milliseconds from now.
    pub fn format_after_date(ms: i64) -> String {
        format_after_date(ms)
    }

    /// The current time in milliseconds followed by a random number.
    pub fn get_marking28() -> (r: String)
        ensures
            exists|t: i64, n: i32| 0 <= n && r@ == crate::num::int_text(t as int) + crate::num::int_text(n as int),
    {
        get_marking28()
    }

    /// 32 random lower-case hex digits.
    pub fn random_uuid() -> (r: String)
        ensures
            exists|b: Seq<u8>| b.len() == 16 && r@ == hex_text(b, false),
    {
        random_uuid()
    }

    /// Whether the name is one of the basic type names.
    pub fn is_basic_type(type_str: &str) -> (r: bool)
        ensures
            r == spec_is_basic_type(type_str@),
    {
        is_basic_type(type_str)
    }

    /// Splits on commas, trims each item and drops empty items.
    pub fn convert_string_to_list(s: &str) -> (r: Vec<String>)
        ensures
            views(r@) == spec_string_to_list(s@),
    {
        convert_string_to_list(s)
    }

    /// Joins the list with commas.
    pub fn convert_list_to_string(list: &[String]) -> (r: String)
        ensures
            r@ == join(views(list@), ","@),
    {
        convert_list_to_string(list)
    }

    /// URL encoding.
    pub fn encode_url(url: &str) -> (r: String)
        ensures
            r@ == url_encode_bytes(url.spec_bytes()),
    {
        encode_url(url)
    }

    /// URL decoding.
    pub fn decode_url(url: &str) -> (r: String)
        ensures
            r@ == spec_decode_url(url),
    {
        decode_url(url)
    }

    /// Whether the text is a URL.
    pub fn is_url(s: &str) -> (r: bool)
        ensures
            r == (s@.len() > 0 && regex_matches(url_pattern(), s@) == Some(true)),
    {
        is_url(s)
    }

    /// Number of a log level name.
    pub fn translate_log_level_to_int(level: &str) -> (r: i32)
        ensures
            r == spec_log_level_to_int(level@),
    {
        translate_log_level_to_int(level)
    }

    /// Name of a log level number.
    pub fn translate_log_level_to_string(level: i32) -> (r: String)
        ensures
            r@ == spec_log_level_to_string(level),
    {
        translate_log_level_to_string(level)
    }

    /// Whether every item of `list2` occurs in `list1`.
    pub fn list1_contain_list2_all(list1: &[String], list2: &[String]) -> (r: bool)
        ensures
            r == (forall|j: int| 0 <= j < list2@.len() ==> views(list1@).contains(#[trigger] list2@[j]@)),
    {
        list1_contain_list2_all(list1, list2)
    }

    /// Whether some item of `list2` occurs in `list1`.
    pub fn list1_contain_list2_any(list1: &[String], list2: &[String]) -> (r: bool)
        ensures
            r == (exists|j: int| 0 <= j < list2@.len() && views(list1@).contains(#[trigger] list2@[j]@)),
    {
        list1_contain_list2_any(list1, list2)
    }

    /// The items of `list1` that do not occur in `list2`.
    pub fn list1_remove_by_list2(list1: &[String], list2: &[String]) -> (r: Vec<String>)
        ensures
            views(r@) == views(list1@).filter(|x: Seq<char>| !views(list2@).contains(x)),
    {
        list1_remove_by_list2(list1, list2)
    }

    /// Filters by prefix and keyword, then pages.
    pub fn search_list(data_list: &[String], prefix: &str, keyword: &str, start: i32, size: i32, sort_type: bool) -> (r: Vec<String>)
        ensures
            views(r@) == spec_page(spec_search_filter(views(data_list@), prefix@, keyword@), start, size, sort_type),
    {
        search_list(data_list, prefix, keyword, start, size, sort_type)
    }

    /// Joins string slices with commas.
    pub fn array_join(arr: &[&str]) -> (r: String)
        ensures
            r@ == join(arr@.map_values(|s: &str| s@), ","@),
    {
        array_join(arr)
    }

    /// The value, or the empty string for `None`.
    pub fn value_to_string(value: Option<&str>) -> (r: String)
        ensures
            r@ == match value {
                Some(v) => v@,
                None => Seq::<char>::empty(),
            },
    {
        value_to_string(value)
    }

}

} // verus!
