//! Character-level helpers: conversions between strings and character
//! vectors, comparisons, white space, and number formatting.

use vstd::prelude::*;

verus! {

/// `s` ends with `suffix`.
pub open spec fn ends_with(s: Seq<char>, suffix: Seq<char>) -> bool {
    suffix.len() <= s.len() && s.subrange(s.len() - suffix.len(), s.len() as int) == suffix
}

/// The characters with the Unicode property `White_Space`.
pub open spec fn is_whitespace(c: char) -> bool {
    let u = c as u32;
    (0x09 <= u <= 0x0d) || u == 0x20 || u == 0x85 || u == 0xa0 || u == 0x1680 || (0x2000 <= u
        <= 0x200a) || u == 0x2028 || u == 0x2029 || u == 0x202f || u == 0x205f || u == 0x3000
}

/// The number of leading white-space characters of `s`.
pub open spec fn leading_whitespace(s: Seq<char>) -> nat
    decreases s.len(),
{
    if s.len() > 0 && is_whitespace(s[0]) {
        1 + leading_whitespace(s.subrange(1, s.len() as int))
    } else {
        0
    }
}

/// The number of trailing white-space characters of `s`.
pub open spec fn trailing_whitespace(s: Seq<char>) -> nat
    decreases s.len(),
{
    if s.len() > 0 && is_whitespace(s[s.len() - 1]) {
        1 + trailing_whitespace(s.subrange(0, s.len() - 1))
    } else {
        0
    }
}

/// `s` without its leading and trailing white space.
pub open spec fn trim(s: Seq<char>) -> Seq<char> {
    let rest = s.subrange(leading_whitespace(s) as int, s.len() as int);
    rest.subrange(0, rest.len() - trailing_whitespace(rest))
}

/// The character of a digit below ten.
pub open spec fn decimal_digit(d: nat) -> char {
    (('0' as u8) + d) as u8 as char
}

/// The lower-case character of a digit below sixteen.
pub open spec fn hex_digit(d: nat) -> char {
    if d < 10 {
        (('0' as u8) + d) as u8 as char
    } else {
        (('a' as u8) + d - 10) as u8 as char
    }
}

/// `n` in decimal, without leading zeros.
pub open spec fn decimal(n: nat) -> Seq<char>
    decreases n,
{
    if n < 10 {
        seq![decimal_digit(n)]
    } else {
        decimal(n / 10).push(decimal_digit(n % 10))
    }
}

/// `n` in lower-case hexadecimal, without leading zeros.
pub open spec fn lower_hex(n: nat) -> Seq<char>
    decreases n,
{
    if n < 16 {
        seq![hex_digit(n)]
    } else {
        lower_hex(n / 16).push(hex_digit(n % 16))
    }
}

/// The characters of a string slice, in order.
pub fn chars_of(s: &str) -> (v: Vec<char>)
    ensures
        v@ == s@,
{
    let mut v: Vec<char> = Vec::new();
    for c in it: s.chars()
        invariant
            v@ == it.seq().take(it.index() as int),
            it.seq() == s@,
    {
        v.push(c);
    }
    v
}

/// Collects characters into a `String` with `String::from_iter`: the string
/// holds exactly the given characters, in order.
#[verifier::external_body]
pub(crate) fn string_of(v: &Vec<char>) -> (s: String)
    ensures
        s@ == v@,
{
    String::from_iter(v.iter())
}

/// Whether two character slices hold the same characters.
pub fn chars_eq(a: &[char], b: &[char]) -> (r: bool)
    ensures
        r == (a@ == b@),
{
    if a.len() != b.len() {
        return false;
    }
    let mut i: usize = 0;
    while i < a.len()
        invariant
            i <= a.len(),
            a.len() == b.len(),
            a@.subrange(0, i as int) == b@.subrange(0, i as int),
        decreases a.len() - i,
    {
        if a[i] != b[i] {
            return false;
        }
        assert(a@.subrange(0, i + 1) == a@.subrange(0, i as int).push(a@[i as int]));
        assert(b@.subrange(0, i + 1) == b@.subrange(0, i as int).push(b@[i as int]));
        i += 1;
    }
    assert(a@.subrange(0, i as int) == a@);
    assert(b@.subrange(0, i as int) == b@);
    true
}

/// Whether two string slices hold the same text.
pub fn str_eq(a: &str, b: &str) -> (r: bool)
    ensures
        r == (a@ == b@),
{
    let av = chars_of(a);
    let bv = chars_of(b);
    chars_eq(av.as_slice(), bv.as_slice())
}

/// Whether `s` ends with `suffix`.
pub fn has_suffix(s: &[char], suffix: &[char]) -> (r: bool)
    ensures
        r == ends_with(s@, suffix@),
{
    if suffix.len() > s.len() {
        return false;
    }
    let off: usize = s.len() - suffix.len();
    let mut i: usize = 0;
    while i < suffix.len()
        invariant
            i <= suffix.len(),
            off + suffix.len() == s.len(),
            s@.subrange(off as int, off + i) == suffix@.subrange(0, i as int),
        decreases suffix.len() - i,
    {
        if s[off + i] != suffix[i] {
            assert(s@.subrange(off as int, s.len() as int)[i as int] != suffix@[i as int]);
            return false;
        }
        assert(s@.subrange(off as int, off + i + 1) == s@.subrange(off as int, off + i).push(
            s@[off + i],
        ));
        assert(suffix@.subrange(0, i + 1) == suffix@.subrange(0, i as int).push(suffix@[i as int]));
        i += 1;
    }
    assert(suffix@.subrange(0, i as int) == suffix@);
    true
}

/// Whether `c` is white space.
pub fn is_whitespace_char(c: char) -> (r: bool)
    ensures
        r == is_whitespace(c),
{
    let u: u32 = c as u32;
    (0x09 <= u && u <= 0x0d) || u == 0x20 || u == 0x85 || u == 0xa0 || u == 0x1680 || (0x2000 <= u
        && u <= 0x200a) || u == 0x2028 || u == 0x2029 || u == 0x202f || u == 0x205f || u == 0x3000
}

/// The number of leading white-space characters of `s[from..to]`.
pub fn count_leading_whitespace(s: &[char], from: usize, to: usize) -> (n: usize)
    requires
        from <= to <= s.len(),
    ensures
        n == leading_whitespace(s@.subrange(from as int, to as int)),
        from + n <= to,
{
    let ghost whole = s@.subrange(from as int, to as int);
    let mut i: usize = from;
    assert(whole.subrange(0, whole.len() as int) == whole);
    while i < to && is_whitespace_char(s[i])
        invariant
            from <= i <= to <= s.len(),
            whole == s@.subrange(from as int, to as int),
            leading_whitespace(whole) == (i - from) + leading_whitespace(
                whole.subrange(i - from, whole.len() as int),
            ),
        decreases to - i,
    {
        let ghost rest = whole.subrange(i - from, whole.len() as int);
        assert(rest[0] == s@[i as int]);
        assert(rest.subrange(1, rest.len() as int) == whole.subrange(
            i + 1 - from,
            whole.len() as int,
        ));
        i += 1;
    }
    proof {
        let rest = whole.subrange(i - from, whole.len() as int);
        if i < to {
            assert(rest[0] == s@[i as int]);
        }
    }
    i - from
}

/// The number of trailing white-space characters of `s[from..to]`.
pub fn count_trailing_whitespace(s: &[char], from: usize, to: usize) -> (n: usize)
    requires
        from <= to <= s.len(),
    ensures
        n == trailing_whitespace(s@.subrange(from as int, to as int)),
        from + n <= to,
{
    let ghost whole = s@.subrange(from as int, to as int);
    let mut j: usize = to;
    assert(whole.subrange(0, whole.len() as int) == whole);
    while j > from && is_whitespace_char(s[j - 1])
        invariant
            from <= j <= to <= s.len(),
            whole == s@.subrange(from as int, to as int),
            trailing_whitespace(whole) == (to - j) + trailing_whitespace(
                whole.subrange(0, j - from),
            ),
        decreases j - from,
    {
        let ghost rest = whole.subrange(0, j - from);
        assert(rest[rest.len() - 1] == s@[j - 1]);
        assert(rest.subrange(0, rest.len() - 1) == whole.subrange(0, j - 1 - from));
        j -= 1;
    }
    proof {
        let rest = whole.subrange(0, j - from);
        if j > from {
            assert(rest[rest.len() - 1] == s@[j - 1]);
        }
    }
    to - j
}

/// A copy of `s[from..to]` without its leading and trailing white space.
pub fn trimmed(s: &[char], from: usize, to: usize) -> (v: Vec<char>)
    requires
        from <= to <= s.len(),
    ensures
        v@ == trim(s@.subrange(from as int, to as int)),
{
    let lead = count_leading_whitespace(s, from, to);
    let trail = count_trailing_whitespace(s, from + lead, to);
    let ghost whole = s@.subrange(from as int, to as int);
    assert(whole.subrange(lead as int, whole.len() as int) == s@.subrange(from + lead, to as int));
    let v = copy_range(s, from + lead, to - trail);
    assert(v@ == s@.subrange(from + lead, to as int).subrange(0, to - trail - from - lead));
    v
}

/// A copy of the characters of `s` from `from` up to `to`.
pub fn copy_range(s: &[char], from: usize, to: usize) -> (v: Vec<char>)
    requires
        from <= to <= s.len(),
    ensures
        v@ == s@.subrange(from as int, to as int),
{
    let mut v: Vec<char> = Vec::new();
    let mut i: usize = from;
    while i < to
        invariant
            from <= i <= to <= s.len(),
            v@ == s@.subrange(from as int, i as int),
        decreases to - i,
    {
        v.push(s[i]);
        i += 1;
    }
    v
}

/// Appends the characters of `tail` to `v`.
pub fn append_chars(v: &mut Vec<char>, tail: &[char])
    ensures
        final(v)@ == old(v)@ + tail@,
{
    let mut i: usize = 0;
    while i < tail.len()
        invariant
            i <= tail.len(),
            v@ == old(v)@ + tail@.subrange(0, i as int),
        decreases tail.len() - i,
    {
        v.push(tail[i]);
        i += 1;
    }
    assert(tail@.subrange(0, i as int) == tail@);
}

/// Appends `n` in decimal to `v`.
pub fn push_decimal(v: &mut Vec<char>, n: usize)
    ensures
        final(v)@ == old(v)@ + decimal(n as nat),
    decreases n,
{
    if n >= 10 {
        push_decimal(v, n / 10);
    }
    let d: u8 = (n % 10) as u8;
    v.push((48u8 + d) as char);
}

/// Appends `n` in lower-case hexadecimal to `v`.
pub fn push_lower_hex(v: &mut Vec<char>, n: u64)
    ensures
        final(v)@ == old(v)@ + lower_hex(n as nat),
    decreases n,
{
    if n >= 16 {
        push_lower_hex(v, n / 16);
    }
    let d: u8 = (n % 16) as u8;
    if d < 10 {
        v.push((48u8 + d) as char);
    } else {
        v.push((97u8 + (d - 10)) as char);
    }
}

} // verus!
