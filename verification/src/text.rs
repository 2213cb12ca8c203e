//! Character-level helpers shared by the formatting and parsing code.

use vstd::prelude::*;

verus! {

/// The character of a decimal digit.
pub open spec fn digit_char(d: nat) -> char {
    (48 + d) as char
}

/// The decimal representation of `n`, without sign or leading zeros.
pub open spec fn decimal(n: nat) -> Seq<char>
    decreases n,
{
    if n < 10 {
        seq![digit_char(n)]
    } else {
        decimal(n / 10).push(digit_char(n % 10))
    }
}

/// Appends one character to a string (`String::push`).
#[verifier::external_body]
pub(crate) fn push_char(s: &mut String, c: char)
    ensures
        final(s)@ == old(s)@.push(c),
{
    s.push(c);
}

fn push_decimal(s: &mut String, n: u64)
    ensures
        final(s)@ == old(s)@ + decimal(n as nat),
    decreases n,
{
    if n >= 10 {
        push_decimal(s, n / 10);
    }
    let d: u8 = (n % 10) as u8;
    let c: char = (48u8 + d) as char;
    push_char(s, c);
    proof {
        assert(decimal(n as nat) == if n < 10 { seq![digit_char(n as nat)] } else { decimal((n / 10) as nat).push(digit_char((n % 10) as nat)) });
    }
}

/// The decimal text of `n`.
pub fn decimal_string(n: u64) -> (s: String)
    ensures
        s@ == decimal(n as nat),
{
    let mut s = String::new();
    push_decimal(&mut s, n);
    s
}

/// The characters of `s`, in order.
pub fn chars_of(s: &str) -> (v: Vec<char>)
    ensures
        v@ == s@,
{
    let mut v: Vec<char> = Vec::new();
    for c in it: s.chars()
        invariant
            v@ == it.seq().take(it.index() as int),
    {
        v.push(c);
    }
    v
}

/// A string holding the characters `v[lo..hi]`.
pub fn string_of_range(v: &Vec<char>, lo: usize, hi: usize) -> (s: String)
    requires
        lo <= hi <= v@.len(),
    ensures
        s@ == v@.subrange(lo as int, hi as int),
{
    let mut s = String::new();
    for i in lo..hi
        invariant
            lo <= hi <= v@.len(),
            s@ == v@.subrange(lo as int, i as int),
    {
        push_char(&mut s, v[i]);
        assert(v@.subrange(lo as int, i + 1) == v@.subrange(lo as int, i as int).push(v@[i as int]));
    }
    s
}

/// Whether `a` and `b` hold the same characters.
pub fn same_text(a: &str, b: &str) -> (r: bool)
    ensures
        r == (a@ == b@),
{
    let x = chars_of(a);
    let y = chars_of(b);
    if x.len() != y.len() {
        return false;
    }
    let n: usize = x.len();
    for i in 0..n
        invariant
            n == x@.len() == y@.len(),
            x@ == a@,
            y@ == b@,
            forall|k: int| 0 <= k < i ==> x@[k] == y@[k],
    {
        if x[i] != y[i] {
            return false;
        }
    }
    assert(x@ == y@);
    true
}

/// The views of a sequence of strings.
pub open spec fn string_views_of(s: Seq<String>) -> Seq<Seq<char>> {
    s.map_values(|t: String| t@)
}

/// Unicode `White_Space`, the characters that `str::trim` removes.
pub open spec fn is_space(c: char) -> bool {
    let u = c as u32;
    ||| 9 <= u <= 13
    ||| u == 32
    ||| u == 0x85
    ||| u == 0xA0
    ||| u == 0x1680
    ||| 0x2000 <= u <= 0x200A
    ||| u == 0x2028
    ||| u == 0x2029
    ||| u == 0x202F
    ||| u == 0x205F
    ||| u == 0x3000
}

/// `s` without its leading white space.
pub open spec fn trim_start(s: Seq<char>) -> Seq<char>
    decreases s.len(),
{
    if s.len() > 0 && is_space(s[0]) {
        trim_start(s.skip(1))
    } else {
        s
    }
}

/// `s` without its trailing white space.
pub open spec fn trim_end(s: Seq<char>) -> Seq<char>
    decreases s.len(),
{
    if s.len() > 0 && is_space(s.last()) {
        trim_end(s.drop_last())
    } else {
        s
    }
}

/// `s` without leading and trailing white space, as `str::trim` gives it.
pub open spec fn trim(s: Seq<char>) -> Seq<char> {
    trim_end(trim_start(s))
}

/// Whether `c` is white space.
pub fn is_space_char(c: char) -> (b: bool)
    ensures
        b == is_space(c),
{
    let u: u32 = c as u32;
    (9 <= u && u <= 13) || u == 32 || u == 0x85 || u == 0xA0 || u == 0x1680 || (0x2000 <= u
        && u <= 0x200A) || u == 0x2028 || u == 0x2029 || u == 0x202F || u == 0x205F || u == 0x3000
}

/// The bounds, inside `lo..hi`, of `v[lo..hi]` trimmed.
pub fn trim_bounds(v: &Vec<char>, lo: usize, hi: usize) -> (r: (usize, usize))
    requires
        lo <= hi <= v@.len(),
    ensures
        lo <= r.0 <= r.1 <= hi,
        v@.subrange(r.0 as int, r.1 as int) == trim(v@.subrange(lo as int, hi as int)),
{
    let mut a: usize = lo;
    while a < hi && is_space_char(v[a])
        invariant
            lo <= a <= hi <= v@.len(),
            trim_start(v@.subrange(lo as int, hi as int)) == trim_start(v@.subrange(a as int, hi as int)),
        decreases hi - a,
    {
        assert(v@.subrange(a as int, hi as int).skip(1) == v@.subrange(a + 1, hi as int));
        a = a + 1;
    }
    assert(trim_start(v@.subrange(a as int, hi as int)) == v@.subrange(a as int, hi as int));
    let mut b: usize = hi;
    while b > a && is_space_char(v[b - 1])
        invariant
            lo <= a <= b <= hi <= v@.len(),
            trim(v@.subrange(lo as int, hi as int)) == trim_end(v@.subrange(a as int, b as int)),
        decreases b - a,
    {
        assert(v@.subrange(a as int, b as int).drop_last() == v@.subrange(a as int, b - 1));
        b = b - 1;
    }
    (a, b)
}

/// Whether `c` is an ASCII decimal digit.
pub open spec fn is_digit(c: char) -> bool {
    48 <= c as u32 <= 57
}

/// The number that the decimal digits `s` denote.
pub open spec fn digits_value(s: Seq<char>) -> nat
    decreases s.len(),
{
    if s.len() == 0 {
        0
    } else {
        digits_value(s.drop_last()) * 10 + ((s.last() as u32) - 48) as nat
    }
}

/// Whether `d` is a non-empty string of decimal digits.
pub open spec fn all_digits(d: Seq<char>) -> bool {
    d.len() > 0 && forall|i: int| 0 <= i < d.len() ==> is_digit(#[trigger] d[i])
}

/// `s` without one leading `+`, if it has one.
pub open spec fn unsigned_digits(s: Seq<char>) -> Seq<char> {
    if s.len() > 0 && s[0] == '+' {
        s.skip(1)
    } else {
        s
    }
}

/// What `u32::from_str` gives for `s`: an optional `+`, then at least one
/// decimal digit, denoting a value that fits in `u32`.
pub open spec fn parse_u32(s: Seq<char>) -> Option<u32> {
    let d = unsigned_digits(s);
    if all_digits(d) && digits_value(d) <= u32::MAX {
        Some(digits_value(d) as u32)
    } else {
        None
    }
}

/// Parses `v[lo..hi]` as `u32::from_str` does.
pub fn parse_u32_range(v: &Vec<char>, lo: usize, hi: usize) -> (r: Option<u32>)
    requires
        lo <= hi <= v@.len(),
    ensures
        r == parse_u32(v@.subrange(lo as int, hi as int)),
{
    let ghost s = v@.subrange(lo as int, hi as int);
    let mut i: usize = lo;
    if lo < hi && v[lo] == '+' {
        i = lo + 1;
    }
    let ghost d = v@.subrange(i as int, hi as int);
    assert(d == unsigned_digits(s));
    if i == hi {
        return None;
    }
    let start: usize = i;
    let mut acc: u64 = 0;
    while i < hi
        invariant
            start <= i <= hi <= v@.len(),
            d == v@.subrange(start as int, hi as int),
            s == v@.subrange(lo as int, hi as int),
            d == unsigned_digits(s),
            acc == digits_value(v@.subrange(start as int, i as int)),
            acc <= u32::MAX,
            forall|k: int| start <= k < i ==> is_digit(#[trigger] v@[k]),
        decreases hi - i,
    {
        let c: char = v[i];
        let u: u32 = c as u32;
        if u < 48 || u > 57 {
            assert(d[i - start] == c);
            assert(!is_digit(d[i - start]));
            return None;
        }
        assert(v@.subrange(start as int, i + 1).drop_last() == v@.subrange(start as int, i as int));
        let next: u64 = acc * 10 + (u - 48) as u64;
        if next > 4294967295u64 {
            proof {
                if all_digits(d) {
                    lemma_digits_value_prefix_monotone(d, (i + 1 - start) as int);
                    assert(d.take((i + 1 - start) as int) == v@.subrange(start as int, i + 1));
                }
            }
            return None;
        }
        acc = next;
        i = i + 1;
    }
    assert(forall|k: int| 0 <= k < d.len() ==> d[k] == v@[start + k]);
    Some(acc as u32)
}

/// The value of a prefix of a digit string never exceeds the value of the whole.
pub proof fn lemma_digits_value_prefix_monotone(d: Seq<char>, n: int)
    requires
        0 <= n <= d.len(),
        forall|i: int| 0 <= i < d.len() ==> is_digit(#[trigger] d[i]),
    ensures
        digits_value(d.take(n)) <= digits_value(d),
    decreases d.len(),
{
    if n < d.len() {
        assert(d.drop_last().take(n) == d.take(n));
        lemma_digits_value_prefix_monotone(d.drop_last(), n);
        assert(is_digit(d[d.len() - 1]));
    } else {
        assert(d.take(n) == d);
    }
}

/// The decimal text of a number consists of digits and denotes the number.
pub proof fn lemma_decimal_digits(n: nat)
    ensures
        all_digits(decimal(n)),
        digits_value(decimal(n)) == n,
        decimal(n).len() >= 1,
    decreases n,
{
    if n < 10 {
        assert(decimal(n) == seq![digit_char(n)]);
        assert((48 + n) as char as u32 == 48 + n);
        assert(decimal(n).drop_last() =~= Seq::<char>::empty());
        assert(digits_value(Seq::<char>::empty()) == 0);
        assert(decimal(n).last() == digit_char(n));
        assert(digits_value(decimal(n)) == digits_value(decimal(n).drop_last()) * 10 + ((decimal(n).last() as u32) - 48) as nat);
    } else {
        lemma_decimal_digits(n / 10);
        let d = decimal(n / 10);
        assert(decimal(n) == d.push(digit_char(n % 10)));
        assert((48 + n % 10) as char as u32 == 48 + n % 10);
        assert(decimal(n).drop_last() =~= d);
        assert(decimal(n).last() == digit_char(n % 10));
        assert(digits_value(decimal(n)) == digits_value(d) * 10 + ((decimal(n).last() as u32) - 48) as nat);
        assert((n / 10) * 10 + n % 10 == n);
        assert forall|i: int| 0 <= i < decimal(n).len() implies is_digit(#[trigger] decimal(n)[i]) by {
            if i < d.len() {
                assert(decimal(n)[i] == d[i]);
            }
        }
    }
}

/// Reading back the decimal text of a `u32` gives the number.
pub proof fn lemma_parse_decimal(n: u32)
    ensures
        parse_u32(decimal(n as nat)) == Some(n),
{
    lemma_decimal_digits(n as nat);
    let d = decimal(n as nat);
    assert(is_digit(d[0]));
    assert(unsigned_digits(d) == d);
}

/// Digits are not white space, so trimming leaves a decimal text unchanged,
/// also after one leading space.
pub proof fn lemma_trim_spaced_decimal(n: nat)
    ensures
        trim(seq![' '] + decimal(n)) == decimal(n),
        trim(decimal(n)) == decimal(n),
{
    lemma_decimal_digits(n);
    let d = decimal(n);
    let s = seq![' '] + d;
    assert(is_space(' '));
    assert(s.skip(1) =~= d);
    assert(is_digit(d[0]));
    assert(!is_space(d[0]));
    assert(trim_start(d) == d);
    assert(trim_start(s) == d);
    assert(is_digit(d.last()));
    assert(trim_end(d) == d);
}

/// Trimming at the front skips leading white space and keeps the rest: a
/// text whose first part holds a non-space character keeps everything after it.
proof fn lemma_trim_start_append(s: Seq<char>, t: Seq<char>)
    ensures
        (exists|i: int| 0 <= i < s.len() && !is_space(#[trigger] s[i])) ==> trim_start(s + t) == trim_start(s) + t,
        (forall|i: int| 0 <= i < s.len() ==> is_space(#[trigger] s[i])) ==> trim_start(s + t) == trim_start(t)
            && trim_start(s) == Seq::<char>::empty(),
    decreases s.len(),
{
    if s.len() > 0 {
        lemma_trim_start_append(s.skip(1), t);
        assert((s + t).skip(1) =~= s.skip(1) + t);
        assert((s + t)[0] == s[0]);
        if is_space(s[0]) {
            assert forall|i: int| 0 <= i < s.skip(1).len() && !is_space(#[trigger] s.skip(1)[i]) implies (exists|j: int| 0 <= j < s.len() && !is_space(#[trigger] s[j])) by {
                assert(s[i + 1] == s.skip(1)[i]);
            }
            if exists|i: int| 0 <= i < s.len() && !is_space(#[trigger] s[i]) {
                let i = choose|i: int| 0 <= i < s.len() && !is_space(#[trigger] s[i]);
                assert(i > 0);
                assert(s.skip(1)[i - 1] == s[i]);
            }
            assert forall|i: int| (forall|k: int| 0 <= k < s.len() ==> is_space(#[trigger] s[k])) && 0 <= i < s.skip(1).len() implies is_space(#[trigger] s.skip(1)[i]) by {
                assert(s.skip(1)[i] == s[i + 1]);
            }
        } else {
            assert(!is_space(s[0]));
        }
    } else {
        assert(s + t =~= t);
    }
}

/// Trimming at the end, the mirror of `lemma_trim_start_append`.
proof fn lemma_trim_end_prepend(s: Seq<char>, t: Seq<char>)
    ensures
        (exists|i: int| 0 <= i < t.len() && !is_space(#[trigger] t[i])) ==> trim_end(s + t) == s + trim_end(t),
        (forall|i: int| 0 <= i < t.len() ==> is_space(#[trigger] t[i])) ==> trim_end(s + t) == trim_end(s)
            && trim_end(t) == Seq::<char>::empty(),
    decreases t.len(),
{
    if t.len() > 0 {
        lemma_trim_end_prepend(s, t.drop_last());
        assert((s + t).drop_last() =~= s + t.drop_last());
        assert((s + t).last() == t.last());
        if is_space(t.last()) {
            if exists|i: int| 0 <= i < t.len() && !is_space(#[trigger] t[i]) {
                let i = choose|i: int| 0 <= i < t.len() && !is_space(#[trigger] t[i]);
                assert(i < t.len() - 1);
                assert(t.drop_last()[i] == t[i]);
            }
            assert forall|i: int| (forall|k: int| 0 <= k < t.len() ==> is_space(#[trigger] t[k])) && 0 <= i < t.drop_last().len() implies is_space(#[trigger] t.drop_last()[i]) by {
                assert(t.drop_last()[i] == t[i]);
            }
        } else {
            assert(!is_space(t[t.len() - 1]));
        }
    } else {
        assert(s + t =~= s);
    }
}

/// What trimming does: a text without white space at either end is kept;
/// white space added at either end is removed again; ASCII letters and
/// digits are not white space, while space, tab, line feed and carriage
/// return are.
pub proof fn lemma_trim_laws(s: Seq<char>, c: char)
    ensures
        s.len() == 0 || (!is_space(s[0]) && !is_space(s.last())) ==> trim(s) == s,
        is_space(c) ==> trim(seq![c] + s) == trim(s),
        is_space(c) ==> trim(s + seq![c]) == trim(s),
        ('0' <= c <= '9' || 'a' <= c <= 'z' || 'A' <= c <= 'Z') ==> !is_space(c),
        is_space(' ') && is_space('\t') && is_space('\n') && is_space('\r'),
{
    assert((seq![c] + s).skip(1) =~= s);
    if s.len() > 0 && !is_space(s[0]) && !is_space(s.last()) {
        assert(trim_start(s) == s);
    }
    if is_space(c) {
        let e = seq![c];
        lemma_trim_start_append(s, e);
        if exists|i: int| 0 <= i < s.len() && !is_space(#[trigger] s[i]) {
            let ts = trim_start(s);
            lemma_trim_end_prepend(ts, e);
            assert(e[0] == c);
            assert(trim_end(e) =~= Seq::<char>::empty()) by {
                assert(e.drop_last() =~= Seq::<char>::empty());
            }
            assert(ts + Seq::<char>::empty() =~= ts);
        } else {
            assert forall|i: int| 0 <= i < s.len() implies is_space(#[trigger] s[i]) by {}
            lemma_trim_start_append(e, Seq::<char>::empty());
            assert(e + Seq::<char>::empty() =~= e);
            assert(forall|i: int| 0 <= i < e.len() ==> is_space(#[trigger] e[i]));
        }
    }
}

} // verus!
