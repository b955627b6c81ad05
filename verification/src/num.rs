//! Decimal formatting and parsing of integers.
use vstd::prelude::*;
use crate::text::{chars_of, string_of};

verus! {

/// The digit character for `d` (0..=9).
pub open spec fn digit_char(d: int) -> char {
    ((d + 48) as u32) as char
}

/// The value of a digit character.
pub open spec fn digit_val(c: char) -> int {
    (c as u32) - 48
}

/// Decimal digits of a natural number, most significant first, no leading zeros.
pub open spec fn digits_of(n: nat) -> Seq<char>
    decreases n,
{
    if n < 10 {
        seq![digit_char(n as int)]
    } else {
        digits_of(n / 10).push(digit_char((n % 10) as int))
    }
}

/// Decimal text of an integer, with `-` in front of negative numbers.
pub open spec fn int_text(n: int) -> Seq<char> {
    if n < 0 {
        seq!['-'] + digits_of((-n) as nat)
    } else {
        digits_of(n as nat)
    }
}

/// A non-empty run of ASCII digits.
pub open spec fn all_digits(s: Seq<char>) -> bool {
    s.len() > 0 && forall|i: int| 0 <= i < s.len() ==> '0' <= #[trigger] s[i] && s[i] <= '9'
}

/// The number that a run of digits denotes.
pub open spec fn digits_value(s: Seq<char>) -> int
    decreases s.len(),
{
    if s.len() == 0 {
        0
    } else {
        digits_value(s.drop_last()) * 10 + digit_val(s.last())
    }
}

/// The integer that `s` denotes in the grammar of Rust's signed integer
/// parsing (an optional `+` or `-`, then digits), before any range check.
pub open spec fn parse_signed(s: Seq<char>) -> Option<int> {
    if s.len() > 0 && s[0] == '-' {
        if all_digits(s.drop_first()) { Some(-digits_value(s.drop_first())) } else { None }
    } else if s.len() > 0 && s[0] == '+' {
        if all_digits(s.drop_first()) { Some(digits_value(s.drop_first())) } else { None }
    } else if all_digits(s) {
        Some(digits_value(s))
    } else {
        None
    }
}

/// The number that `s` denotes in the grammar of Rust's unsigned integer
/// parsing (an optional `+`, then digits), before any range check.
pub open spec fn parse_unsigned(s: Seq<char>) -> Option<int> {
    if s.len() > 0 && s[0] == '+' {
        if all_digits(s.drop_first()) { Some(digits_value(s.drop_first())) } else { None }
    } else if all_digits(s) {
        Some(digits_value(s))
    } else {
        None
    }
}

/// What `str::parse::<i64>` gives, as an option.
pub open spec fn spec_parse_i64(s: Seq<char>) -> Option<i64> {
    match parse_signed(s) {
        Some(v) => if i64::MIN <= v <= i64::MAX { Some(v as i64) } else { None },
        None => None,
    }
}

/// What `str::parse::<i32>` gives, as an option.
pub open spec fn spec_parse_i32(s: Seq<char>) -> Option<i32> {
    match parse_signed(s) {
        Some(v) => if i32::MIN <= v <= i32::MAX { Some(v as i32) } else { None },
        None => None,
    }
}

/// What `str::parse::<usize>` gives, as an option.
pub open spec fn spec_parse_usize(s: Seq<char>) -> Option<usize> {
    match parse_unsigned(s) {
        Some(v) => if v <= usize::MAX { Some(v as usize) } else { None },
        None => None,
    }
}

/// A digit run's value is never below that of its prefixes.
pub proof fn lemma_digits_value_prefix(s: Seq<char>, i: int)
    requires
        0 <= i <= s.len(),
        forall|k: int| 0 <= k < s.len() ==> '0' <= #[trigger] s[k] && s[k] <= '9',
    ensures
        0 <= digits_value(s.take(i)) <= digits_value(s),
    decreases s.len() - i,
{
    if i < s.len() {
        lemma_digits_value_prefix(s, i + 1);
        assert(s.take(i + 1).drop_last() =~= s.take(i));
        assert(s.take(i + 1).last() == s[i]);
    } else {
        assert(s.take(i) =~= s);
        lemma_digits_value_nonneg(s);
    }
}

/// Digit runs denote non-negative numbers.
pub proof fn lemma_digits_value_nonneg(s: Seq<char>)
    requires
        forall|k: int| 0 <= k < s.len() ==> '0' <= #[trigger] s[k] && s[k] <= '9',
    ensures
        digits_value(s) >= 0,
    decreases s.len(),
{
    if s.len() > 0 {
        lemma_digits_value_nonneg(s.drop_last());
        assert(s.drop_last().len() < s.len());
        assert(s[s.len() - 1] <= '9');
    }
}

/// The digits of a number are a digit run that denotes the number.
pub proof fn lemma_digits_of(n: nat)
    ensures
        all_digits(digits_of(n)),
        digits_value(digits_of(n)) == n,
        digits_of(n)[0] != '-' && digits_of(n)[0] != '+',
    decreases n,
{
    if n >= 10 {
        lemma_digits_of(n / 10);
        let d = digits_of(n);
        assert(d.drop_last() =~= digits_of(n / 10));
        assert(d[0] == digits_of(n / 10)[0]);
        assert(d.last() == digit_char((n % 10) as int));
        lemma_digit_round_trip((n % 10) as int);
        assert(digits_value(d) == digits_value(digits_of(n / 10)) * 10 + (n % 10));
        assert((n / 10) * 10 + n % 10 == n);
    } else {
        lemma_digit_round_trip(n as int);
        let d = digits_of(n);
        assert(d == seq![digit_char(n as int)]);
        assert(d.drop_last() =~= Seq::<char>::empty());
        assert(digits_value(d.drop_last()) == 0);
        assert(digits_value(d) == digits_value(d.drop_last()) * 10 + digit_val(d.last()));
    }
}

/// The value of the digit character for `d` is `d`.
pub proof fn lemma_digit_round_trip(d: int)
    requires
        0 <= d < 10,
    ensures
        digit_val(digit_char(d)) == d,
        '0' <= digit_char(d) && digit_char(d) <= '9',
{
    assert(((d + 48) as u32) as char as u32 == (d + 48) as u32);
}

/// Parsing the decimal text of a number gives the number back.
pub proof fn lemma_parse_int_text(n: int)
    ensures
        parse_signed(int_text(n)) == Some(n),
{
    if n < 0 {
        lemma_digits_of((-n) as nat);
        assert((seq!['-'] + digits_of((-n) as nat)).drop_first() =~= digits_of((-n) as nat));
    } else {
        lemma_digits_of(n as nat);
    }
}

/// Reads the digit run `cs[from..]` whose value must not exceed `limit`;
/// `None` when it is not a digit run or exceeds the limit.
fn digits_up_to(cs: &Vec<char>, from: usize, limit: u128) -> (r: Option<u128>)
    requires
        from <= cs@.len(),
        limit <= u64::MAX,
    ensures
        match r {
            Some(v) => all_digits(cs@.skip(from as int)) && v == digits_value(cs@.skip(from as int)) && v <= limit,
            None => !all_digits(cs@.skip(from as int)) || digits_value(cs@.skip(from as int)) > limit,
        },
{
    let ghost s = cs@.skip(from as int);
    if from == cs.len() {
        return None;
    }
    let mut i: usize = from;
    let mut acc: u128 = 0;
    while i < cs.len()
        invariant
            from < cs@.len(),
            from <= i <= cs@.len(),
            limit <= u64::MAX,
            s == cs@.skip(from as int),
            forall|k: int| 0 <= k < i - from ==> '0' <= #[trigger] s[k] && s[k] <= '9',
            acc == digits_value(s.take(i - from)),
            acc <= limit,
        decreases cs@.len() - i,
    {
        let c = cs[i];
        if c < '0' || c > '9' {
            assert(s[i - from] == c);
            return None;
        }
        let d: u128 = (c as u32 - 48) as u128;
        assert(s.take(i + 1 - from).drop_last() =~= s.take(i - from));
        assert(s.take(i + 1 - from).last() == c);
        let next: u128 = acc * 10 + d;
        if next > limit {
            proof {
                assert forall|k: int| 0 <= k < i + 1 - from implies '0' <= #[trigger] s.take(i + 1 - from)[k] && s.take(i + 1 - from)[k] <= '9' by {
                    assert(s.take(i + 1 - from)[k] == s[k]);
                }
                if all_digits(s) {
                    lemma_digits_value_prefix(s, i + 1 - from);
                }
            }
            return None;
        }
        acc = next;
        i += 1;
    }
    assert(s.take(i - from) =~= s);
    Some(acc)
}

/// Parses a signed decimal number whose magnitude may reach `max_pos` when
/// positive and `max_pos + 1` when negative.
fn parse_signed_bounded(s: &str, max_pos: u128) -> (r: Option<i128>)
    requires
        max_pos < u64::MAX,
    ensures
        match r {
            Some(v) => parse_signed(s@) == Some(v as int) && -(max_pos + 1) <= v <= max_pos,
            None => match parse_signed(s@) {
                Some(v) => v < -(max_pos + 1) || v > max_pos,
                None => true,
            },
        },
{
    let cs = chars_of(s);
    if cs.len() > 0 && cs[0] == '-' {
        assert(cs@.skip(1) =~= s@.drop_first());
        match digits_up_to(&cs, 1, max_pos + 1) {
            Some(v) => Some(0 - (v as i128)),
            None => None,
        }
    } else if cs.len() > 0 && cs[0] == '+' {
        assert(cs@.skip(1) =~= s@.drop_first());
        match digits_up_to(&cs, 1, max_pos) {
            Some(v) => Some(v as i128),
            None => None,
        }
    } else {
        assert(cs@.skip(0) =~= s@);
        match digits_up_to(&cs, 0, max_pos) {
            Some(v) => Some(v as i128),
            None => None,
        }
    }
}

/// `str::parse::<i64>`, as an option.
pub fn parse_i64(s: &str) -> (r: Option<i64>)
    ensures
        r == spec_parse_i64(s@),
{
    match parse_signed_bounded(s, 9223372036854775807u128) {
        Some(v) => Some(v as i64),
        None => None,
    }
}

/// `str::parse::<i32>`, as an option.
pub fn parse_i32(s: &str) -> (r: Option<i32>)
    ensures
        r == spec_parse_i32(s@),
{
    match parse_signed_bounded(s, 2147483647u128) {
        Some(v) => Some(v as i32),
        None => None,
    }
}

/// `str::parse::<usize>`, as an option.
pub fn parse_usize(s: &str) -> (r: Option<usize>)
    ensures
        r == spec_parse_usize(s@),
{
    let cs = chars_of(s);
    let from: usize = if cs.len() > 0 && cs[0] == '+' { 1 } else { 0 };
    assert(from == 1 ==> cs@.skip(1) =~= s@.drop_first());
    assert(cs@.skip(0) =~= s@);
    let limit: u128 = usize::MAX as u128;
    match digits_up_to(&cs, from, limit) {
        Some(v) => Some(v as usize),
        None => None,
    }
}

/// Decimal text of a number.
pub fn int_to_string(n: i64) -> (r: String)
    ensures
        r@ == int_text(n as int),
{
    let neg = n < 0;
    let mag: u128 = if neg { (0 - (n as i128)) as u128 } else { n as u128 };
    let ghost m = mag as nat;
    let mut q: u128 = mag;
    let mut suf: Vec<char> = Vec::new();
    loop
        invariant_except_break
            q <= m,
            digits_of(m) == digits_of(q as nat) + suf@,
        ensures
            digits_of(m) == suf@,
        decreases q,
    {
        let d: u128 = q % 10;
        let c: char = char_of_digit(d as u32);
        let ghost before = suf@;
        suf.insert(0, c);
        assert(suf@ =~= seq![c] + before);
        if q < 10 {
            assert(digits_of(q as nat) == seq![c]);
            assert(digits_of(m) =~= suf@);
            break;
        }
        assert(digits_of(q as nat) == digits_of((q / 10) as nat).push(c));
        assert(digits_of(m) =~= digits_of((q / 10) as nat) + suf@);
        q = q / 10;
    }
    let mut out: Vec<char> = Vec::new();
    if neg {
        out.push('-');
    }
    let mut k: usize = 0;
    while k < suf.len()
        invariant
            out@ == (if neg { seq!['-'] } else { Seq::<char>::empty() }) + suf@.take(k as int),
            k <= suf@.len(),
        decreases suf@.len() - k,
    {
        out.push(suf[k]);
        assert(suf@.take(k + 1) =~= suf@.take(k as int).push(suf@[k as int]));
        k += 1;
    }
    assert(suf@.take(suf@.len() as int) =~= suf@);
    string_of(out.as_slice())
}

/// The digit character for a value 0..=9.
fn char_of_digit(d: u32) -> (c: char)
    requires
        d < 10,
    ensures
        c == digit_char(d as int),
{
    if d == 0 { '0' } else if d == 1 { '1' } else if d == 2 { '2' } else if d == 3 { '3' }
    else if d == 4 { '4' } else if d == 5 { '5' } else if d == 6 { '6' } else if d == 7 { '7' }
    else if d == 8 { '8' } else { '9' }
}

} // verus!
