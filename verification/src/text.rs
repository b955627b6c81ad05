//! Character-level helpers shared by the rest of the library: conversion
//! between strings and character vectors, and building strings.
use vstd::prelude::*;
use vstd::string::StrSliceExecFns;
use vstd::string::StringExecFns;

verus! {

/// Appends one character to a string (`String::push`).
#[verifier::external_body]
pub(crate) fn push_char(s: &mut String, c: char)
    ensures
        final(s)@ == old(s)@.push(c),
{
    s.push(c);
}

/// The characters of a string slice, in order.
pub fn chars_of(s: &str) -> (r: Vec<char>)
    ensures
        r@ == s@,
{
    let n = s.unicode_len();
    let mut r: Vec<char> = Vec::new();
    let mut i: usize = 0;
    while i < n
        invariant
            n == s@.len(),
            i <= n,
            r@ == s@.subrange(0, i as int),
        decreases n - i,
    {
        r.push(s.get_char(i));
        i += 1;
    }
    r
}

/// Builds a string from a sequence of characters.
pub fn string_of(cs: &[char]) -> (r: String)
    ensures
        r@ == cs@,
{
    let mut r = String::new();
    let mut i: usize = 0;
    while i < cs.len()
        invariant
            i <= cs@.len(),
            r@ == cs@.subrange(0, i as int),
        decreases cs@.len() - i,
    {
        push_char(&mut r, cs[i]);
        i += 1;
    }
    r
}

} // verus!

verus! {

/// The character sequences of a list of strings.
pub open spec fn views(v: Seq<String>) -> Seq<Seq<char>> {
    v.map_values(|s: String| s@)
}

/// `t` begins with `p`.
pub open spec fn has_prefix(t: Seq<char>, p: Seq<char>) -> bool {
    p.len() <= t.len() && t.subrange(0, p.len() as int) == p
}

/// `t` ends with `p`.
pub open spec fn has_suffix(t: Seq<char>, p: Seq<char>) -> bool {
    p.len() <= t.len() && t.subrange(t.len() - p.len(), t.len() as int) == p
}

/// `k` occurs in `t` as a contiguous block.
pub open spec fn has_infix(t: Seq<char>, k: Seq<char>) -> bool {
    exists|i: int| 0 <= i && i + k.len() <= t.len() && #[trigger] t.subrange(i, i + k.len()) == k
}

/// The elements of `parts` separated by `sep`.
pub open spec fn join(parts: Seq<Seq<char>>, sep: Seq<char>) -> Seq<char>
    decreases parts.len(),
{
    if parts.len() == 0 {
        Seq::empty()
    } else if parts.len() == 1 {
        parts[0]
    } else {
        join(parts.drop_last(), sep) + sep + parts.last()
    }
}

/// Two strings hold the same characters.
pub fn str_eq(a: &str, b: &str) -> (r: bool)
    ensures
        r == (a@ == b@),
{
    let x: String = a.to_owned();
    let y: String = b.to_owned();
    x == y
}

/// The characters Rust counts as white space (`char::is_whitespace`).
pub open spec fn is_ws(c: char) -> bool {
    ||| c == '\t' ||| c == '\n' ||| c == '\u{0B}' ||| c == '\u{0C}' ||| c == '\r' ||| c == ' '
    ||| c == '\u{85}' ||| c == '\u{A0}' ||| c == '\u{1680}' ||| ('\u{2000}' <= c && c <= '\u{200A}')
    ||| c == '\u{2028}' ||| c == '\u{2029}' ||| c == '\u{202F}' ||| c == '\u{205F}' ||| c == '\u{3000}'
}

/// `s` without its leading white space.
pub open spec fn trim_start(s: Seq<char>) -> Seq<char>
    decreases s.len(),
{
    if s.len() > 0 && is_ws(s[0]) {
        trim_start(s.drop_first())
    } else {
        s
    }
}

/// `s` without its trailing white space.
pub open spec fn trim_end(s: Seq<char>) -> Seq<char>
    decreases s.len(),
{
    if s.len() > 0 && is_ws(s.last()) {
        trim_end(s.drop_last())
    } else {
        s
    }
}

/// `s` without leading and trailing white space.
pub open spec fn trim(s: Seq<char>) -> Seq<char> {
    trim_end(trim_start(s))
}

/// Whether the character is white space.
pub fn char_is_ws(c: char) -> (r: bool)
    ensures
        r == is_ws(c),
{
    c == '\t' || c == '\n' || c == '\u{0B}' || c == '\u{0C}' || c == '\r' || c == ' '
        || c == '\u{85}' || c == '\u{A0}' || c == '\u{1680}' || ('\u{2000}' <= c && c <= '\u{200A}')
        || c == '\u{2028}' || c == '\u{2029}' || c == '\u{202F}' || c == '\u{205F}' || c == '\u{3000}'
}

/// The characters without leading and trailing white space.
pub fn trim_chars(s: &Vec<char>) -> (r: Vec<char>)
    ensures
        r@ == trim(s@),
{
    let n = s.len();
    let mut a: usize = 0;
    assert(s@.subrange(0, n as int) =~= s@);
    while a < n && char_is_ws(s[a])
        invariant
            n == s@.len(),
            a <= n,
            trim_start(s@) == trim_start(s@.subrange(a as int, n as int)),
        decreases n - a,
    {
        assert(s@.subrange(a as int, n as int).drop_first() =~= s@.subrange(a + 1, n as int));
        a += 1;
    }
    let ghost ts = s@.subrange(a as int, n as int);
    assert(trim_start(s@) == ts);
    let mut b: usize = n;
    while b > a && char_is_ws(s[b - 1])
        invariant
            n == s@.len(),
            a <= b <= n,
            ts == s@.subrange(a as int, n as int),
            trim_end(ts) == trim_end(s@.subrange(a as int, b as int)),
        decreases b,
    {
        assert(s@.subrange(a as int, b as int).drop_last() =~= s@.subrange(a as int, b - 1));
        b -= 1;
    }
    assert(trim_end(s@.subrange(a as int, b as int)) == s@.subrange(a as int, b as int));
    let mut r: Vec<char> = Vec::new();
    let mut k: usize = a;
    while k < b
        invariant
            n == s@.len(),
            a <= k <= b,
            b <= n,
            r@ == s@.subrange(a as int, k as int),
        decreases b - k,
    {
        r.push(s[k]);
        assert(s@.subrange(a as int, k + 1) =~= s@.subrange(a as int, k as int).push(s@[k as int]));
        k += 1;
    }
    assert(s@.subrange(a as int, n as int) =~= ts);
    assert(ts =~= s@.subrange(a as int, n as int));
    r
}

/// Whether the character occurs in the string.
pub fn contains_char(s: &str, c: char) -> (r: bool)
    ensures
        r == s@.contains(c),
{
    let cs = chars_of(s);
    let mut i: usize = 0;
    while i < cs.len()
        invariant
            cs@ == s@,
            i <= cs@.len(),
            forall|j: int| 0 <= j < i ==> cs@[j] != c,
        decreases cs@.len() - i,
    {
        if cs[i] == c {
            assert(s@[i as int] == c);
            return true;
        }
        i += 1;
    }
    false
}

/// Whether `t` begins with `p`.
pub fn starts_with(t: &str, p: &str) -> (r: bool)
    ensures
        r == has_prefix(t@, p@),
{
    let tc = chars_of(t);
    let pc = chars_of(p);
    if pc.len() > tc.len() {
        return false;
    }
    let mut i: usize = 0;
    while i < pc.len()
        invariant
            pc@ == p@,
            tc@ == t@,
            pc@.len() <= tc@.len(),
            i <= pc@.len(),
            forall|j: int| 0 <= j < i ==> tc@[j] == pc@[j],
        decreases pc@.len() - i,
    {
        if tc[i] != pc[i] {
            assert(tc@.subrange(0, pc@.len() as int)[i as int] != pc@[i as int]);
            return false;
        }
        i += 1;
    }
    assert(tc@.subrange(0, pc@.len() as int) =~= pc@);
    true
}

/// Whether `t` ends with `p`.
pub fn ends_with(t: &str, p: &str) -> (r: bool)
    ensures
        r == has_suffix(t@, p@),
{
    let tc = chars_of(t);
    let pc = chars_of(p);
    if pc.len() > tc.len() {
        return false;
    }
    let off = tc.len() - pc.len();
    let mut i: usize = 0;
    while i < pc.len()
        invariant
            pc@ == p@,
            tc@ == t@,
            pc@.len() <= tc@.len(),
            off == tc@.len() - pc@.len(),
            tc@.len() <= usize::MAX,
            i <= pc@.len(),
            forall|j: int| 0 <= j < i ==> tc@[off + j] == pc@[j],
        decreases pc@.len() - i,
    {
        if tc[off + i] != pc[i] {
            assert(tc@.subrange(off as int, tc@.len() as int)[i as int] != pc@[i as int]);
            return false;
        }
        i += 1;
    }
    assert(tc@.subrange(off as int, tc@.len() as int) =~= pc@);
    true
}

/// Whether `k` occurs in `t`.
pub fn contains_str(t: &str, k: &str) -> (r: bool)
    ensures
        r == has_infix(t@, k@),
{
    let tc = chars_of(t);
    let kc = chars_of(k);
    if kc.len() > tc.len() {
        return false;
    }
    let last = tc.len() - kc.len();
    let mut i: usize = 0;
    while i <= last
        invariant
            tc@ == t@,
            kc@ == k@,
            kc@.len() <= tc@.len(),
            last == tc@.len() - kc@.len(),
            i <= last,
            tc@.len() <= usize::MAX,
            forall|s: int| 0 <= s < i ==> #[trigger] tc@.subrange(s, s + kc@.len()) != kc@,
        ensures
            forall|s: int| 0 <= s <= last ==> #[trigger] tc@.subrange(s, s + kc@.len()) != kc@,
        decreases last - i,
    {
        let mut j: usize = 0;
        let mut same = true;
        while j < kc.len()
            invariant
                tc@ == t@,
                kc@ == k@,
                i <= last,
                last == tc@.len() - kc@.len(),
                kc@.len() <= tc@.len(),
                tc@.len() <= usize::MAX,
                j <= kc@.len(),
                same == (forall|q: int| 0 <= q < j ==> tc@[i + q] == kc@[q]),
            decreases kc@.len() - j,
        {
            if tc[i + j] != kc[j] {
                same = false;
            }
            j += 1;
        }
        if same {
            assert(tc@.subrange(i as int, i + kc@.len()) =~= kc@);
            return true;
        }
        assert(tc@.subrange(i as int, i + kc@.len()) != kc@) by {
            let q = choose|q: int| 0 <= q < kc@.len() && tc@[i + q] != kc@[q];
            assert(tc@.subrange(i as int, i + kc@.len())[q] == tc@[i + q]);
        }
        if i == last {
            break;
        }
        i += 1;
    }
    assert(!has_infix(t@, k@)) by {
        if has_infix(t@, k@) {
            let s = choose|s: int| 0 <= s && s + k@.len() <= t@.len() && #[trigger] t@.subrange(s, s + k@.len()) == k@;
            assert(s <= last);
        }
    }
    false
}

/// Joins `parts` with `sep` between neighbours.
pub fn join_strings(parts: &[String], sep: &str) -> (r: String)
    ensures
        r@ == join(views(parts@), sep@),
{
    let mut r = String::new();
    let mut i: usize = 0;
    while i < parts.len()
        invariant
            i <= parts@.len(),
            r@ == join(views(parts@.subrange(0, i as int)), sep@),
        decreases parts@.len() - i,
    {
        let ghost before = r@;
        if i > 0 {
            r.append(sep);
        }
        r.append(parts[i].as_str());
        proof {
            let pre = views(parts@.subrange(0, i as int));
            let post = views(parts@.subrange(0, i + 1));
            assert(post.drop_last() =~= pre);
            assert(post.last() == parts@[i as int]@);
            if i == 0 {
                assert(post =~= seq![parts@[0]@]);
            }
        }
        i += 1;
    }
    assert(parts@.subrange(0, parts@.len() as int) =~= parts@);
    r
}

/// Joins string slices with `sep` between neighbours.
pub fn join_strs(parts: &[&str], sep: &str) -> (r: String)
    ensures
        r@ == join(parts@.map_values(|s: &str| s@), sep@),
{
    let mut r = String::new();
    let mut i: usize = 0;
    while i < parts.len()
        invariant
            i <= parts@.len(),
            r@ == join(parts@.subrange(0, i as int).map_values(|s: &str| s@), sep@),
        decreases parts@.len() - i,
    {
        if i > 0 {
            r.append(sep);
        }
        r.append(parts[i]);
        proof {
            let pre = parts@.subrange(0, i as int).map_values(|s: &str| s@);
            let post = parts@.subrange(0, i + 1).map_values(|s: &str| s@);
            assert(post.drop_last() =~= pre);
            if i == 0 {
                assert(post =~= seq![parts@[0]@]);
            }
        }
        i += 1;
    }
    assert(parts@.subrange(0, parts@.len() as int) =~= parts@);
    r
}

/// Whether `a` comes before `b` in dictionary order of character codes,
/// comparing from position `i` on.
pub open spec fn lt_from(a: Seq<char>, b: Seq<char>, i: int) -> bool
    decreases a.len() - i,
{
    if i >= a.len() {
        i < b.len()
    } else if i >= b.len() {
        false
    } else if a[i] != b[i] {
        a[i] < b[i]
    } else {
        lt_from(a, b, i + 1)
    }
}

/// Dictionary order of texts by character code, the order of `str::cmp`
/// (UTF-8 keeps the order of code points).
pub open spec fn text_lt(a: Seq<char>, b: Seq<char>) -> bool {
    lt_from(a, b, 0)
}

/// No text comes before itself.
pub proof fn lemma_lt_irreflexive(a: Seq<char>, i: int)
    requires
        0 <= i,
    ensures
        !lt_from(a, a, i),
    decreases a.len() - i,
{
    if i < a.len() {
        lemma_lt_irreflexive(a, i + 1);
    }
}

/// The order is transitive.
pub proof fn lemma_lt_transitive(a: Seq<char>, b: Seq<char>, c: Seq<char>, i: int)
    requires
        0 <= i,
        lt_from(a, b, i),
        lt_from(b, c, i),
    ensures
        lt_from(a, c, i),
    decreases a.len() - i,
{
    if i < a.len() && i < b.len() && i < c.len() && a[i] == b[i] && b[i] == c[i] {
        lemma_lt_transitive(a, b, c, i + 1);
    }
}

/// Of two texts that differ from position `i` on, one comes before the other.
pub proof fn lemma_lt_total(a: Seq<char>, b: Seq<char>, i: int)
    requires
        0 <= i <= a.len(),
        i <= b.len(),
    ensures
        lt_from(a, b, i) || lt_from(b, a, i)
            || (a.len() == b.len() && forall|j: int| i <= j < a.len() ==> a[j] == b[j]),
    decreases a.len() - i,
{
    if i < a.len() && i < b.len() && a[i] == b[i] {
        lemma_lt_total(a, b, i + 1);
        if a.len() == b.len() && forall|j: int| i + 1 <= j < a.len() ==> a[j] == b[j] {
            assert forall|j: int| i <= j < a.len() implies a[j] == b[j] by {
                if j > i {
                    assert(i + 1 <= j < a.len());
                }
            }
        }
    }
}

/// Of two different texts, one comes before the other.
pub proof fn lemma_text_lt_total(a: Seq<char>, b: Seq<char>)
    requires
        a != b,
    ensures
        text_lt(a, b) || text_lt(b, a),
{
    lemma_lt_total(a, b, 0);
    if a.len() == b.len() && forall|j: int| 0 <= j < a.len() ==> a[j] == b[j] {
        assert(a =~= b);
    }
}

/// Whether `a` comes before `b` in dictionary order of character codes.
pub fn text_less(a: &str, b: &str) -> (r: bool)
    ensures
        r == text_lt(a@, b@),
{
    let ac = chars_of(a);
    let bc = chars_of(b);
    let mut i: usize = 0;
    loop
        invariant
            ac@ == a@,
            bc@ == b@,
            i <= ac@.len(),
            i <= bc@.len(),
            lt_from(a@, b@, 0) == lt_from(a@, b@, i as int),
        decreases ac@.len() - i,
    {
        if i >= ac.len() {
            return i < bc.len();
        }
        if i >= bc.len() {
            return false;
        }
        if ac[i] != bc[i] {
            return ac[i] < bc[i];
        }
        i += 1;
    }
}

} // verus!
