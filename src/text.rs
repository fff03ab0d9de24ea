//! Character-level helpers for OSC addresses and display labels.
use vstd::prelude::*;
use vstd::string::*;

verus! {

/// `prefix` is a prefix of `s`.
pub open spec fn is_prefix(prefix: Seq<char>, s: Seq<char>) -> bool {
    prefix.len() <= s.len() && s.subrange(0, prefix.len() as int) == prefix
}

/// `part` occurs in `s` starting at position `at`.
pub open spec fn occurs_at(part: Seq<char>, s: Seq<char>, at: int) -> bool {
    0 <= at && at + part.len() <= s.len() && s.subrange(at, at + part.len()) == part
}

/// `part` occurs somewhere in `s`.
pub open spec fn contains(s: Seq<char>, part: Seq<char>) -> bool {
    exists|at: int| occurs_at(part, s, at)
}

/// Whether `s` begins with `prefix`.
pub fn starts_with(s: &str, prefix: &str) -> (r: bool)
    ensures
        r == is_prefix(prefix@, s@),
{
    let n = s.unicode_len();
    let m = prefix.unicode_len();
    if m > n {
        return false;
    }
    let mut i: usize = 0;
    while i < m
        invariant
            m == prefix@.len(),
            n == s@.len(),
            m <= n,
            i <= m,
            forall|j: int| 0 <= j < i ==> s@[j] == prefix@[j],
        decreases m - i,
    {
        if s.get_char(i) != prefix.get_char(i) {
            assert(s@.subrange(0, m as int)[i as int] != prefix@[i as int]);
            return false;
        }
        i += 1;
    }
    assert(s@.subrange(0, m as int) =~= prefix@);
    true
}

/// Whether `part` occurs at position `at` of `s`.
fn matches_at(s: &str, part: &str, at: usize) -> (r: bool)
    requires
        at + part@.len() <= s@.len(),
    ensures
        r == occurs_at(part@, s@, at as int),
{
    let n = s.unicode_len();
    let m = part.unicode_len();
    let mut i: usize = 0;
    while i < m
        invariant
            m == part@.len(),
            n == s@.len(),
            at + m <= n,
            i <= m,
            forall|j: int| 0 <= j < i ==> s@[at + j] == part@[j],
        decreases m - i,
    {
        if s.get_char(at + i) != part.get_char(i) {
            assert(s@.subrange(at as int, at + m)[i as int] != part@[i as int]);
            return false;
        }
        i += 1;
    }
    assert(s@.subrange(at as int, at + m) =~= part@);
    true
}

/// Whether `part` occurs anywhere in `s`.
pub fn contains_str(s: &str, part: &str) -> (r: bool)
    ensures
        r == contains(s@, part@),
{
    let n = s.unicode_len();
    let m = part.unicode_len();
    if m > n {
        assert forall|at: int| !occurs_at(part@, s@, at) by {}
        return false;
    }
    let limit = n - m;
    let mut at: usize = 0;
    loop
        invariant
            m == part@.len(),
            n == s@.len(),
            limit == n - m,
            at <= limit,
            forall|j: int| 0 <= j < at ==> !occurs_at(part@, s@, j),
        decreases limit - at,
    {
        if matches_at(s, part, at) {
            return true;
        }
        if at == limit {
            assert forall|j: int| !occurs_at(part@, s@, j) by {
                if 0 <= j && j < at {
                }
            }
            return false;
        }
        at += 1;
    }
}

/// Unicode's White_Space property: the characters that `trim` removes.
pub open spec fn is_white(c: char) -> bool {
    ('\u{9}' <= c <= '\u{d}') || c == ' ' || c == '\u{85}' || c == '\u{a0}' || c == '\u{1680}'
        || ('\u{2000}' <= c <= '\u{200a}') || c == '\u{2028}' || c == '\u{2029}'
        || c == '\u{202f}' || c == '\u{205f}' || c == '\u{3000}'
}

pub fn is_white_char(c: char) -> (r: bool)
    ensures
        r == is_white(c),
{
    ('\u{9}' <= c && c <= '\u{d}') || c == ' ' || c == '\u{85}' || c == '\u{a0}' || c == '\u{1680}'
        || ('\u{2000}' <= c && c <= '\u{200a}') || c == '\u{2028}' || c == '\u{2029}'
        || c == '\u{202f}' || c == '\u{205f}' || c == '\u{3000}'
}

/// Position just after the last `c` among the first `i` characters of `s`,
/// or 0 when there is none.
pub open spec fn cut_after_last(s: Seq<char>, c: char, i: int) -> int
    decreases i,
{
    if i <= 0 {
        0
    } else if s[i - 1] == c {
        i
    } else {
        cut_after_last(s, c, i - 1)
    }
}

/// First position at or after `i`, below `j`, that holds no white space
/// (`j` if none).
pub open spec fn skip_white(s: Seq<char>, i: int, j: int) -> int
    decreases j - i,
{
    if i < j && is_white(s[i]) {
        skip_white(s, i + 1, j)
    } else {
        i
    }
}

/// End of `s[i..j]` once trailing white space is removed.
pub open spec fn back_white(s: Seq<char>, i: int, j: int) -> int
    decreases j - i,
{
    if i < j && is_white(s[j - 1]) {
        back_white(s, i, j - 1)
    } else {
        j
    }
}

/// The text after the last `:` (all of it when there is none), without
/// leading or trailing white space: `"Fader 3: Vox"` becomes `"Vox"`.
pub open spec fn clean_label_spec(s: Seq<char>) -> Seq<char> {
    let k = cut_after_last(s, ':', s.len() as int);
    let a = skip_white(s, k, s.len() as int);
    let b = back_white(s, a, s.len() as int);
    s.subrange(a, b)
}

proof fn lemma_cut_bounds(s: Seq<char>, c: char, i: int)
    requires
        0 <= i <= s.len(),
    ensures
        0 <= cut_after_last(s, c, i) <= i,
    decreases i,
{
    if i > 0 {
        lemma_cut_bounds(s, c, i - 1);
    }
}

proof fn lemma_skip_bounds(s: Seq<char>, i: int, j: int)
    requires
        0 <= i <= j <= s.len(),
    ensures
        i <= skip_white(s, i, j) <= j,
    decreases j - i,
{
    if i < j && is_white(s[i]) {
        lemma_skip_bounds(s, i + 1, j);
    }
}

proof fn lemma_back_bounds(s: Seq<char>, i: int, j: int)
    requires
        0 <= i <= j <= s.len(),
    ensures
        i <= back_white(s, i, j) <= j,
    decreases j - i,
{
    if i < j && is_white(s[j - 1]) {
        lemma_back_bounds(s, i, j - 1);
    }
}

/// Strips a label down to the name it carries: the text after the last `:`,
/// trimmed of white space.
pub fn clean_label(label: &str) -> (r: String)
    ensures
        r@ == clean_label_spec(label@),
{
    let ghost s = label@;
    let n = label.unicode_len();
    let mut k: usize = n;
    while k > 0 && label.get_char(k - 1) != ':'
        invariant
            s == label@,
            n == s.len(),
            k <= n,
            cut_after_last(s, ':', n as int) == cut_after_last(s, ':', k as int),
        decreases k,
    {
        k -= 1;
    }
    let mut a: usize = k;
    proof { lemma_cut_bounds(s, ':', n as int); }
    while a < n && is_white_char(label.get_char(a))
        invariant
            s == label@,
            n == s.len(),
            k <= a <= n,
            skip_white(s, k as int, n as int) == skip_white(s, a as int, n as int),
        decreases n - a,
    {
        a += 1;
    }
    let mut b: usize = n;
    while b > a && is_white_char(label.get_char(b - 1))
        invariant
            s == label@,
            n == s.len(),
            a <= b <= n,
            back_white(s, a as int, n as int) == back_white(s, a as int, b as int),
        decreases b,
    {
        b -= 1;
    }
    label.substring_char(a, b).to_owned()
}

/// First position at or after `i` that holds `/`, or the length of `s`.
pub open spec fn next_slash(s: Seq<char>, i: int) -> int
    decreases s.len() - i,
{
    if i >= s.len() {
        s.len() as int
    } else if s[i] == '/' {
        i
    } else {
        next_slash(s, i + 1)
    }
}

/// Field `k` of the `/`-separated fields that start at position `i`.
pub open spec fn field_from(s: Seq<char>, i: int, k: nat) -> Option<Seq<char>>
    decreases k,
{
    let j = next_slash(s, i);
    if i > s.len() {
        None
    } else if k == 0 {
        Some(s.subrange(i, j))
    } else if j < s.len() {
        field_from(s, j + 1, (k - 1) as nat)
    } else {
        None
    }
}

/// Field `k` of `s` split at every `/` (an address that starts with `/` has
/// an empty field 0).
pub open spec fn field(s: Seq<char>, k: nat) -> Option<Seq<char>> {
    field_from(s, 0, k)
}

proof fn lemma_next_slash_bounds(s: Seq<char>, i: int)
    requires
        0 <= i <= s.len(),
    ensures
        i <= next_slash(s, i) <= s.len(),
        next_slash(s, i) < s.len() ==> s[next_slash(s, i)] == '/',
    decreases s.len() - i,
{
    if i < s.len() && s[i] != '/' {
        lemma_next_slash_bounds(s, i + 1);
    }
}

/// Field `k` of `s` split at every `/`, if `s` has that many fields.
pub fn split_field(s: &str, k: usize) -> (r: Option<String>)
    ensures
        field(s@, k as nat) == match r {
            Some(t) => Some(t@),
            None => None,
        },
{
    let n = s.unicode_len();
    let mut i: usize = 0;
    let mut left: usize = k;
    loop
        invariant
            n == s@.len(),
            i <= n,
            field(s@, k as nat) == field_from(s@, i as int, left as nat),
        decreases n - i, left,
    {
        let mut j: usize = i;
        while j < n && s.get_char(j) != '/'
            invariant
                n == s@.len(),
                i <= j <= n,
                next_slash(s@, i as int) == next_slash(s@, j as int),
            decreases n - j,
        {
            j += 1;
        }
        proof { lemma_next_slash_bounds(s@, i as int); }
        if left == 0 {
            return Some(s.substring_char(i, j).to_owned());
        }
        if j == n {
            return None;
        }
        i = j + 1;
        left -= 1;
    }
}

pub open spec fn is_digit(c: char) -> bool {
    '0' <= c <= '9'
}

/// Value of a string of decimal digits.
pub open spec fn digits_value(t: Seq<char>) -> nat
    decreases t.len(),
{
    if t.len() == 0 {
        0
    } else {
        digits_value(t.drop_last()) * 10 + (t.last() as nat - '0' as nat) as nat
    }
}

/// `t` without one leading `+`.
pub open spec fn unsigned_digits(t: Seq<char>) -> Seq<char> {
    if t.len() > 0 && t[0] == '+' {
        t.drop_first()
    } else {
        t
    }
}

pub open spec fn all_digits(d: Seq<char>) -> bool {
    forall|i: int| 0 <= i < d.len() ==> is_digit(#[trigger] d[i])
}

/// What `str::parse::<u8>` accepts: an optional `+`, then one or more
/// decimal digits whose value is at most 255.
pub open spec fn parse_u8_spec(t: Seq<char>) -> Option<u8> {
    let d = unsigned_digits(t);
    if d.len() > 0 && all_digits(d) && digits_value(d) <= 255 {
        Some(digits_value(d) as u8)
    } else {
        None
    }
}

/// Reads a channel number, as `str::parse::<u8>` does.
pub fn parse_u8(t: &str) -> (r: Option<u8>)
    ensures
        r == parse_u8_spec(t@),
{
    let n = t.unicode_len();
    let start: usize = if n > 0 && t.get_char(0) == '+' { 1 } else { 0 };
    let ghost d = t@.subrange(start as int, n as int);
    assert(d =~= unsigned_digits(t@));
    if start == n {
        return None;
    }
    let mut i: usize = start;
    let mut val: u32 = 0;
    while i < n
        invariant
            n == t@.len(),
            start <= i <= n,
            d == t@.subrange(start as int, n as int),
            d == unsigned_digits(t@),
            forall|q: int| 0 <= q < i - start ==> is_digit(#[trigger] d[q]),
            val == if digits_value(d.subrange(0, i - start)) > 255 {
                256
            } else {
                digits_value(d.subrange(0, i - start))
            },
        decreases n - i,
    {
        let c = t.get_char(i);
        if c < '0' || c > '9' {
            assert(!is_digit(d[i - start]));
            return None;
        }
        let ghost pre = d.subrange(0, i - start);
        let ghost next = d.subrange(0, i + 1 - start);
        assert(next.drop_last() =~= pre);
        assert(next.last() == c);
        let digit = (c as u32) - ('0' as u32);
        val = if val > 255 { 256 } else if val * 10 + digit > 255 { 256 } else { val * 10 + digit };
        assert(digits_value(next) == digits_value(pre) * 10 + digit);
        i += 1;
    }
    assert(d.subrange(0, n - start) =~= d);
    if val > 255 {
        None
    } else {
        Some(val as u8)
    }
}

} // verus!
