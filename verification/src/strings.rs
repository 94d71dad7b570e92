//! Character-sequence helpers shared by the parsers and the text layout code.
use vstd::prelude::*;

verus! {

/// `String::push` appends exactly one character.
pub assume_specification[ String::push ](s: &mut String, ch: char)
    ensures
        final(s)@ == old(s)@.push(ch),
;

/// `str == str` compares the character sequences.
pub assume_specification[ <str as PartialEq>::eq ](a: &str, b: &str) -> (r: bool)
    ensures
        r == (a@ == b@),
;

/// Whether two strings hold the same characters.
pub fn str_eq(a: &str, b: &str) -> (r: bool)
    ensures
        r == (a@ == b@),
{
    *a == *b
}

/// The characters of `s`, in order.
pub fn chars_of(s: &str) -> (v: Vec<char>)
    ensures
        v@ == s@,
{
    let mut v: Vec<char> = Vec::new();
    for c in it: s.chars()
        invariant
            it.seq() == s@,
            v@ == s@.take(it.index() as int),
    {
        proof {
            assert(s@.take(it.index() as int + 1) =~= s@.take(it.index() as int).push(c));
        }
        v.push(c);
    }
    proof {
        assert(s@.take(s@.len() as int) =~= s@);
    }
    v
}

/// A new `String` holding `v[lo..hi]`.
pub fn string_of(v: &Vec<char>, lo: usize, hi: usize) -> (s: String)
    requires
        lo <= hi <= v.len(),
    ensures
        s@ == v@.subrange(lo as int, hi as int),
{
    let mut s = String::new();
    let mut i = lo;
    while i < hi
        invariant
            lo <= i <= hi <= v.len(),
            s@ == v@.subrange(lo as int, i as int),
        decreases hi - i,
    {
        proof {
            assert(v@.subrange(lo as int, i as int + 1) =~= v@.subrange(lo as int, i as int).push(v@[i as int]));
        }
        s.push(v[i]);
        i = i + 1;
    }
    s
}

/// Appends the characters of `t` to `s`.
pub fn push_str(s: &mut String, t: &str)
    ensures
        final(s)@ == old(s)@ + t@,
{
    let ghost s0 = s@;
    for c in it: t.chars()
        invariant
            it.seq() == t@,
            s@ == s0 + t@.take(it.index() as int),
    {
        proof {
            assert(t@.take(it.index() as int + 1) =~= t@.take(it.index() as int).push(c));
        }
        s.push(c);
    }
    proof {
        assert(t@.take(t@.len() as int) =~= t@);
    }
}

/// A new `String` with the characters of `t`.
pub fn to_owned_string(t: &str) -> (s: String)
    ensures
        s@ == t@,
{
    let mut s = String::new();
    push_str(&mut s, t);
    s
}

// ===== decimal numbers =====

pub open spec fn digit_char(d: nat) -> char {
    if d == 0 { '0' } else if d == 1 { '1' } else if d == 2 { '2' } else if d == 3 { '3' }
    else if d == 4 { '4' } else if d == 5 { '5' } else if d == 6 { '6' } else if d == 7 { '7' }
    else if d == 8 { '8' } else { '9' }
}

/// Decimal representation of `n` without leading zeros.
pub open spec fn decimal(n: nat) -> Seq<char>
    decreases n,
{
    if n < 10 { seq![digit_char(n)] } else { decimal(n / 10).push(digit_char(n % 10)) }
}

fn digit(d: u64) -> (c: char)
    requires
        d < 10,
    ensures
        c == digit_char(d as nat),
{
    if d == 0 { '0' } else if d == 1 { '1' } else if d == 2 { '2' } else if d == 3 { '3' }
    else if d == 4 { '4' } else if d == 5 { '5' } else if d == 6 { '6' } else if d == 7 { '7' }
    else if d == 8 { '8' } else { '9' }
}

/// Appends the decimal digits of `n` to `s`.
pub fn push_decimal(s: &mut String, n: u64)
    ensures
        final(s)@ == old(s)@ + decimal(n as nat),
    decreases n,
{
    if n < 10 {
        s.push(digit(n));
        proof { assert(old(s)@.push(digit_char(n as nat)) =~= old(s)@ + decimal(n as nat)); }
    } else {
        push_decimal(s, n / 10);
        s.push(digit(n % 10));
        proof {
            assert(old(s)@ + decimal(n as nat / 10) + seq![digit_char(n as nat % 10)]
                =~= old(s)@ + decimal(n as nat));
        }
    }
}

/// The decimal representation of `n`.
pub fn decimal_string(n: u64) -> (s: String)
    ensures
        s@ == decimal(n as nat),
{
    let mut s = String::new();
    push_decimal(&mut s, n);
    proof { assert(Seq::<char>::empty() + decimal(n as nat) =~= decimal(n as nat)); }
    s
}

pub open spec fn is_digit_char(c: char) -> bool {
    '0' <= c <= '9'
}

pub proof fn lemma_digit_char(d: nat)
    requires
        d < 10,
    ensures
        is_digit_char(digit_char(d)),
        digit_char(d) as int - '0' as int == d,
{
}

pub proof fn lemma_decimal_digits(n: nat)
    ensures
        decimal(n).len() >= 1,
        forall|i: int| 0 <= i < decimal(n).len() ==> is_digit_char(#[trigger] decimal(n)[i]),
    decreases n,
{
    if n >= 10 {
        lemma_decimal_digits(n / 10);
    }
}

/// Different numbers have different decimal representations.
pub proof fn lemma_decimal_injective(a: nat, b: nat)
    requires
        decimal(a) == decimal(b),
    ensures
        a == b,
    decreases a + b,
{
    lemma_decimal_digits(a);
    lemma_decimal_digits(b);
    if a < 10 && b < 10 {
        assert(decimal(a)[0] == digit_char(a));
        assert(decimal(b)[0] == digit_char(b));
        lemma_digit_char(a);
        lemma_digit_char(b);
        assert(a == b);
    } else if a < 10 {
        lemma_decimal_digits(b / 10);
        assert(decimal(b).len() >= 2);
        assert(decimal(a).len() == 1);
    } else if b < 10 {
        lemma_decimal_digits(a / 10);
        assert(decimal(a).len() >= 2);
        assert(decimal(b).len() == 1);
    } else {
        assert(decimal(a).drop_last() =~= decimal(a / 10));
        assert(decimal(b).drop_last() =~= decimal(b / 10));
        lemma_decimal_injective(a / 10, b / 10);
        assert(decimal(a).last() == decimal(b).last());
        assert(decimal(a).last() == digit_char(a % 10));
        assert(decimal(b).last() == digit_char(b % 10));
        lemma_digit_char(a % 10);
        lemma_digit_char(b % 10);
        assert(a % 10 == b % 10);
        assert(a == (a / 10) * 10 + a % 10);
        assert(b == (b / 10) * 10 + b % 10);
        assert(a == b);
    }
}


/// The decimal text of `n` reads back as `n`.
pub proof fn lemma_parse_decimal(n: nat)
    ensures
        parse_uint(decimal(n), 10) == Some(n),
{
    lemma_decimal_digits(n);
    lemma_decimal_value(n);
    assert(decimal(n)[0] != '+');
    assert forall|i: int| 0 <= i < decimal(n).len() implies (#[trigger] digit_value(decimal(n)[i], 10)) is Some by {
        assert(is_digit_char(decimal(n)[i]));
    }
}

proof fn lemma_decimal_value(n: nat)
    ensures
        digits_value(decimal(n), 10) == n,
    decreases n,
{
    let d = decimal(n);
    if n < 10 {
        assert(d.drop_last() =~= Seq::<char>::empty());
        lemma_digit_char(n);
        assert(d.last() == digit_char(n));
        assert(digit_value(d.last(), 10) == Some(n));
        assert(digits_value(d.drop_last(), 10) == 0);
    } else {
        lemma_decimal_value(n / 10);
        assert(d.drop_last() =~= decimal(n / 10));
        lemma_digit_char(n % 10);
        assert(d.last() == digit_char(n % 10));
        assert(digit_value(d.last(), 10) == Some(n % 10));
        assert(digits_value(d, 10) == digits_value(d.drop_last(), 10) * 10 + n % 10);
        assert(n == (n / 10) * 10 + n % 10);
    }
}

// ===== character classes =====

/// Unicode `White_Space`, as `char::is_whitespace` decides it.
pub open spec fn is_ws(c: char) -> bool {
    c == ' ' || ('\t' <= c && c <= '\r') || c == '\u{85}' || c == '\u{a0}' || c == '\u{1680}'
        || ('\u{2000}' <= c && c <= '\u{200a}') || c == '\u{2028}' || c == '\u{2029}'
        || c == '\u{202f}' || c == '\u{205f}' || c == '\u{3000}'
}

pub fn is_ws_char(c: char) -> (r: bool)
    ensures
        r == is_ws(c),
{
    c == ' ' || ('\t' <= c && c <= '\r') || c == '\u{85}' || c == '\u{a0}' || c == '\u{1680}'
        || ('\u{2000}' <= c && c <= '\u{200a}') || c == '\u{2028}' || c == '\u{2029}'
        || c == '\u{202f}' || c == '\u{205f}' || c == '\u{3000}'
}

pub open spec fn is_ascii_char(c: char) -> bool {
    (c as u32) < 128
}

pub open spec fn ascii_lower(c: char) -> char {
    if 'A' <= c && c <= 'Z' { ((c as u32) + 32) as char } else { c }
}

pub fn ascii_lower_char(c: char) -> (r: char)
    ensures
        r == ascii_lower(c),
{
    if 'A' <= c && c <= 'Z' {
        let b: u8 = c as u8;
        let r = (b + 32) as char;
        r
    } else {
        c
    }
}

// ===== trimming =====

/// `s` without its leading whitespace.
pub open spec fn trim_start_ws(s: Seq<char>) -> Seq<char>
    decreases s.len(),
{
    if s.len() > 0 && is_ws(s[0]) { trim_start_ws(s.drop_first()) } else { s }
}

/// `s` without its trailing whitespace.
pub open spec fn trim_end_ws(s: Seq<char>) -> Seq<char>
    decreases s.len(),
{
    if s.len() > 0 && is_ws(s.last()) { trim_end_ws(s.drop_last()) } else { s }
}

/// `str::trim`: `s` without leading and trailing whitespace.
pub open spec fn trim_ws(s: Seq<char>) -> Seq<char> {
    trim_end_ws(trim_start_ws(s))
}

/// `s` without the leading copies of `c`.
pub open spec fn trim_start_char(s: Seq<char>, c: char) -> Seq<char>
    decreases s.len(),
{
    if s.len() > 0 && s[0] == c { trim_start_char(s.drop_first(), c) } else { s }
}

/// `s` without the trailing copies of `c`.
pub open spec fn trim_end_char(s: Seq<char>, c: char) -> Seq<char>
    decreases s.len(),
{
    if s.len() > 0 && s.last() == c { trim_end_char(s.drop_last(), c) } else { s }
}

/// `str::trim_matches(c)` for one character `c`.
pub open spec fn trim_char(s: Seq<char>, c: char) -> Seq<char> {
    trim_end_char(trim_start_char(s, c), c)
}

/// Bounds of `trim_ws(v[lo..hi])` inside `v`.
pub fn trim_ws_range(v: &Vec<char>, lo: usize, hi: usize) -> (r: (usize, usize))
    requires
        lo <= hi <= v.len(),
    ensures
        lo <= r.0 <= r.1 <= hi,
        v@.subrange(r.0 as int, r.1 as int) == trim_ws(v@.subrange(lo as int, hi as int)),
{
    let mut a = lo;
    while a < hi && is_ws_char(v[a])
        invariant
            lo <= a <= hi <= v.len(),
            trim_start_ws(v@.subrange(lo as int, hi as int)) == trim_start_ws(v@.subrange(a as int, hi as int)),
        decreases hi - a,
    {
        proof {
            assert(v@.subrange(a as int, hi as int).drop_first() =~= v@.subrange(a as int + 1, hi as int));
        }
        a = a + 1;
    }
    let mut b = hi;
    while b > a && is_ws_char(v[b - 1])
        invariant
            lo <= a <= b <= hi <= v.len(),
            trim_start_ws(v@.subrange(lo as int, hi as int)) == v@.subrange(a as int, hi as int),
            trim_ws(v@.subrange(lo as int, hi as int)) == trim_end_ws(v@.subrange(a as int, b as int)),
        decreases b - a,
    {
        proof {
            assert(v@.subrange(a as int, b as int).drop_last() =~= v@.subrange(a as int, b as int - 1));
        }
        b = b - 1;
    }
    (a, b)
}

/// Bounds of `trim_char(v[lo..hi], c)` inside `v`.
pub fn trim_char_range(v: &Vec<char>, lo: usize, hi: usize, c: char) -> (r: (usize, usize))
    requires
        lo <= hi <= v.len(),
    ensures
        lo <= r.0 <= r.1 <= hi,
        v@.subrange(r.0 as int, r.1 as int) == trim_char(v@.subrange(lo as int, hi as int), c),
{
    let mut a = lo;
    while a < hi && v[a] == c
        invariant
            lo <= a <= hi <= v.len(),
            trim_start_char(v@.subrange(lo as int, hi as int), c) == trim_start_char(v@.subrange(a as int, hi as int), c),
        decreases hi - a,
    {
        proof {
            assert(v@.subrange(a as int, hi as int).drop_first() =~= v@.subrange(a as int + 1, hi as int));
        }
        a = a + 1;
    }
    let mut b = hi;
    while b > a && v[b - 1] == c
        invariant
            lo <= a <= b <= hi <= v.len(),
            trim_start_char(v@.subrange(lo as int, hi as int), c) == v@.subrange(a as int, hi as int),
            trim_char(v@.subrange(lo as int, hi as int), c) == trim_end_char(v@.subrange(a as int, b as int), c),
        decreases b - a,
    {
        proof {
            assert(v@.subrange(a as int, b as int).drop_last() =~= v@.subrange(a as int, b as int - 1));
        }
        b = b - 1;
    }
    (a, b)
}

// ===== searching and splitting =====

/// Index of the first `c` in `s`, or `s.len()` when there is none.
pub open spec fn index_of_char(s: Seq<char>, c: char) -> int
    decreases s.len(),
{
    if s.len() == 0 { 0 } else if s[0] == c { 0 } else { 1 + index_of_char(s.drop_first(), c) }
}

pub proof fn lemma_index_of_char(s: Seq<char>, c: char)
    ensures
        0 <= index_of_char(s, c) <= s.len(),
        index_of_char(s, c) < s.len() ==> s[index_of_char(s, c)] == c,
        forall|j: int| 0 <= j < index_of_char(s, c) ==> s[j] != c,
    decreases s.len(),
{
    if s.len() > 0 && s[0] != c {
        lemma_index_of_char(s.drop_first(), c);
        assert forall|j: int| 0 <= j < index_of_char(s, c) implies s[j] != c by {
            if j > 0 {
                assert(s[j] == s.drop_first()[j - 1]);
            }
        }
    }
}

/// `index_of_char` is the first position holding `c`.
pub proof fn lemma_index_of_char_unique(s: Seq<char>, c: char, k: int)
    requires
        0 <= k <= s.len(),
        k < s.len() ==> s[k] == c,
        forall|j: int| 0 <= j < k ==> s[j] != c,
    ensures
        index_of_char(s, c) == k,
{
    lemma_index_of_char(s, c);
    let m = index_of_char(s, c);
    if m < k {
        assert(s[m] != c);
    } else if k < m {
        assert(s[k] != c);
    }
}

/// Position of the first `c` in `v[lo..hi]` (relative to `v`), or `hi`.
pub fn find_char(v: &Vec<char>, lo: usize, hi: usize, c: char) -> (r: usize)
    requires
        lo <= hi <= v.len(),
    ensures
        lo <= r <= hi,
        r - lo == index_of_char(v@.subrange(lo as int, hi as int), c),
{
    let mut j = lo;
    while j < hi && v[j] != c
        invariant
            lo <= j <= hi <= v.len(),
            forall|k: int| lo <= k < j ==> v@[k] != c,
        decreases hi - j,
    {
        j = j + 1;
    }
    proof {
        let s = v@.subrange(lo as int, hi as int);
        assert forall|k: int| 0 <= k < j - lo implies s[k] != c by {
            assert(s[k] == v@[lo + k]);
        }
        lemma_index_of_char_unique(s, c, j - lo);
    }
    j
}

/// `str::split(c)`: the pieces of `s` between occurrences of `c`.
pub open spec fn split_char(s: Seq<char>, c: char) -> Seq<Seq<char>>
    decreases s.len(),
{
    let k = index_of_char(s, c);
    if 0 <= k < s.len() { seq![s.take(k)] + split_char(s.skip(k + 1), c) } else { seq![s] }
}

/// `str::split_once(c)`: the text before and after the first `c`.
pub open spec fn split_once_char(s: Seq<char>, c: char) -> Option<(Seq<char>, Seq<char>)> {
    let k = index_of_char(s, c);
    if 0 <= k < s.len() { Some((s.take(k), s.skip(k + 1))) } else { None }
}

/// `line` without one trailing carriage return.
pub open spec fn strip_cr(line: Seq<char>) -> Seq<char> {
    if line.len() > 0 && line.last() == '\r' { line.drop_last() } else { line }
}

/// `str::lines`: pieces ended by `\n` (a `\r` before it dropped); no empty last line.
pub open spec fn lines_of(s: Seq<char>) -> Seq<Seq<char>>
    decreases s.len(),
{
    if s.len() == 0 {
        seq![]
    } else {
        let k = index_of_char(s, '\n');
        if 0 <= k < s.len() { seq![strip_cr(s.take(k))] + lines_of(s.skip(k + 1)) } else { seq![s] }
    }
}

/// Number of leading characters of `s` that are not whitespace.
pub open spec fn word_len(s: Seq<char>) -> int
    decreases s.len(),
{
    if s.len() == 0 || is_ws(s[0]) { 0 } else { 1 + word_len(s.drop_first()) }
}

pub proof fn lemma_word_len(s: Seq<char>)
    ensures
        0 <= word_len(s) <= s.len(),
        forall|j: int| 0 <= j < word_len(s) ==> !is_ws(#[trigger] s[j]),
        word_len(s) < s.len() ==> is_ws(s[word_len(s)]),
    decreases s.len(),
{
    if s.len() > 0 && !is_ws(s[0]) {
        lemma_word_len(s.drop_first());
        assert forall|j: int| 0 <= j < word_len(s) implies !is_ws(#[trigger] s[j]) by {
            if j > 0 {
                assert(s[j] == s.drop_first()[j - 1]);
            }
        }
    }
}

/// `str::split_whitespace`: the maximal runs of non-whitespace characters.
pub open spec fn words_of(s: Seq<char>) -> Seq<Seq<char>>
    decreases s.len(),
{
    if s.len() == 0 {
        seq![]
    } else if is_ws(s[0]) {
        words_of(s.drop_first())
    } else {
        let k = word_len(s);
        if 0 < k <= s.len() { seq![s.take(k)] + words_of(s.skip(k)) } else { seq![] }
    }
}

pub open spec fn starts_with(s: Seq<char>, p: Seq<char>) -> bool {
    p.len() <= s.len() && s.take(p.len() as int) == p
}

pub open spec fn ends_with(s: Seq<char>, p: Seq<char>) -> bool {
    p.len() <= s.len() && s.skip(s.len() - p.len()) == p
}

/// `haystack.contains(needle)` for a string needle.
pub open spec fn contains_seq(s: Seq<char>, p: Seq<char>) -> bool {
    exists|i: int| 0 <= i && i + p.len() <= s.len() && #[trigger] s.subrange(i, i + p.len()) == p
}

/// Whether `v[lo..hi]` equals `p`.
pub fn range_eq(v: &Vec<char>, lo: usize, hi: usize, p: &Vec<char>) -> (r: bool)
    requires
        lo <= hi <= v.len(),
    ensures
        r == (v@.subrange(lo as int, hi as int) == p@),
{
    if hi - lo != p.len() {
        return false;
    }
    let mut i: usize = 0;
    while i < p.len()
        invariant
            lo <= hi <= v.len(),
            hi - lo == p.len(),
            i <= p.len(),
            forall|k: int| 0 <= k < i ==> v@[lo + k] == p@[k],
        decreases p.len() - i,
    {
        if v[lo + i] != p[i] {
            proof {
                assert(v@.subrange(lo as int, hi as int)[i as int] != p@[i as int]);
            }
            return false;
        }
        i = i + 1;
    }
    proof {
        assert(v@.subrange(lo as int, hi as int) =~= p@);
    }
    true
}

/// Whether `v[lo..hi]` starts with `p`.
pub fn range_starts_with(v: &Vec<char>, lo: usize, hi: usize, p: &Vec<char>) -> (r: bool)
    requires
        lo <= hi <= v.len(),
    ensures
        r == starts_with(v@.subrange(lo as int, hi as int), p@),
{
    if p.len() > hi - lo {
        return false;
    }
    let r = range_eq(v, lo, lo + p.len(), p);
    proof {
        assert(v@.subrange(lo as int, hi as int).take(p@.len() as int) =~= v@.subrange(lo as int, lo + p@.len()));
    }
    r
}

/// Whether `v[lo..hi]` ends with `p`.
pub fn range_ends_with(v: &Vec<char>, lo: usize, hi: usize, p: &Vec<char>) -> (r: bool)
    requires
        lo <= hi <= v.len(),
    ensures
        r == ends_with(v@.subrange(lo as int, hi as int), p@),
{
    if p.len() > hi - lo {
        return false;
    }
    let r = range_eq(v, hi - p.len(), hi, p);
    proof {
        let s = v@.subrange(lo as int, hi as int);
        assert(s.skip(s.len() - p@.len()) =~= v@.subrange(hi - p@.len(), hi as int));
    }
    r
}

/// Whether `v[lo..hi]` contains `p` somewhere.
pub fn range_contains(v: &Vec<char>, lo: usize, hi: usize, p: &Vec<char>) -> (r: bool)
    requires
        lo <= hi <= v.len(),
    ensures
        r == contains_seq(v@.subrange(lo as int, hi as int), p@),
{
    let ghost s = v@.subrange(lo as int, hi as int);
    if p.len() > hi - lo {
        return false;
    }
    if p.len() == 0 {
        proof {
            assert(s.subrange(0int, 0int + p@.len()) =~= p@);
        }
        return true;
    }
    let last = hi - p.len();
    let mut i = lo;
    while i <= last
        invariant
            lo <= i <= last + 1,
            last + p.len() == hi,
            p.len() > 0,
            lo <= hi <= v.len(),
            s == v@.subrange(lo as int, hi as int),
            forall|k: int| 0 <= k < i - lo ==> #[trigger] s.subrange(k, k + p@.len()) != p@,
        decreases last + 1 - i,
    {
        if range_eq(v, i, i + p.len(), p) {
            proof {
                assert(s.subrange(i - lo, i - lo + p@.len()) =~= v@.subrange(i as int, i + p@.len()));
            }
            return true;
        }
        proof {
            assert(s.subrange(i - lo, i - lo + p@.len()) =~= v@.subrange(i as int, i + p@.len()));
        }
        i = i + 1;
    }
    false
}

// ===== ASCII case =====

/// `s` with ASCII letters lowered (`str::to_ascii_lowercase`).
pub open spec fn lower_seq(s: Seq<char>) -> Seq<char> {
    s.map_values(|c: char| ascii_lower(c))
}

/// `str::eq_ignore_ascii_case`.
pub open spec fn eq_ignore_case(a: Seq<char>, b: Seq<char>) -> bool {
    lower_seq(a) == lower_seq(b)
}

/// `v[lo..hi]` with ASCII letters lowered, as a vector.
pub fn lower_chars(v: &Vec<char>, lo: usize, hi: usize) -> (r: Vec<char>)
    requires
        lo <= hi <= v.len(),
    ensures
        r@ == lower_seq(v@.subrange(lo as int, hi as int)),
{
    let mut r: Vec<char> = Vec::new();
    let mut i = lo;
    while i < hi
        invariant
            lo <= i <= hi <= v.len(),
            r@ == lower_seq(v@.subrange(lo as int, i as int)),
        decreases hi - i,
    {
        r.push(ascii_lower_char(v[i]));
        i = i + 1;
        proof {
            assert(r@ =~= lower_seq(v@.subrange(lo as int, i as int)));
        }
    }
    r
}

/// Whether `v[lo..hi]` and `p` are equal ignoring ASCII case.
pub fn range_eq_ignore_case(v: &Vec<char>, lo: usize, hi: usize, p: &Vec<char>) -> (r: bool)
    requires
        lo <= hi <= v.len(),
    ensures
        r == eq_ignore_case(v@.subrange(lo as int, hi as int), p@),
{
    let a = lower_chars(v, lo, hi);
    let b = lower_chars(p, 0, p.len());
    proof {
        assert(p@.subrange(0, p@.len() as int) =~= p@);
    }
    let r = range_eq(&a, 0, a.len(), &b);
    proof {
        assert(a@.subrange(0, a@.len() as int) =~= a@);
    }
    r
}

// ===== unsigned integers =====

/// Value of one digit character in `radix` (10 or 16).
pub open spec fn digit_value(c: char, radix: nat) -> Option<nat> {
    if '0' <= c && c <= '9' && (c as nat) - ('0' as nat) < radix {
        Some(((c as nat) - ('0' as nat)) as nat)
    } else if radix == 16 && 'a' <= c && c <= 'f' {
        Some(((c as nat) - ('a' as nat) + 10) as nat)
    } else if radix == 16 && 'A' <= c && c <= 'F' {
        Some(((c as nat) - ('A' as nat) + 10) as nat)
    } else {
        None
    }
}

pub open spec fn all_digits(s: Seq<char>, radix: nat) -> bool {
    forall|i: int| 0 <= i < s.len() ==> (#[trigger] digit_value(s[i], radix)) is Some
}

/// Value of a string of digits, most significant first.
pub open spec fn digits_value(s: Seq<char>, radix: nat) -> nat
    decreases s.len(),
{
    if s.len() == 0 {
        0
    } else {
        digits_value(s.drop_last(), radix) * radix + digit_value(s.last(), radix).unwrap_or(0)
    }
}

/// `uN::from_str_radix(s, radix)` as a number: an optional leading `+`
/// (not alone), then one or more digits of `radix`.
pub open spec fn parse_uint(s: Seq<char>, radix: nat) -> Option<nat> {
    let d = if s.len() > 1 && s[0] == '+' { s.drop_first() } else { s };
    if d.len() > 0 && all_digits(d, radix) { Some(digits_value(d, radix)) } else { None }
}

/// The parse of `s` as an unsigned integer not above `max`.
pub open spec fn parse_bounded(s: Seq<char>, radix: nat, max: nat) -> Option<nat> {
    match parse_uint(s, radix) {
        Some(n) => if n <= max { Some(n) } else { None },
        None => None,
    }
}

proof fn lemma_digits_value_mono(s: Seq<char>, radix: nat, i: int)
    requires
        radix >= 2,
        0 <= i <= s.len(),
    ensures
        digits_value(s.take(i), radix) <= digits_value(s, radix),
    decreases s.len() - i,
{
    if i < s.len() {
        let t = s.take(i + 1);
        lemma_digits_value_mono(s, radix, i + 1);
        assert(t.drop_last() =~= s.take(i));
        let a = digits_value(s.take(i), radix);
        assert(a * radix >= a) by (nonlinear_arith)
            requires
                radix >= 2,
        ;
    } else {
        assert(s.take(i) =~= s);
    }
}

fn digit_of(c: char, radix: u64) -> (r: Option<u64>)
    requires
        radix == 10 || radix == 16,
    ensures
        match digit_value(c, radix as nat) {
            Some(d) => r == Some(d as u64),
            None => r is None,
        },
{
    let n: u32 = c as u32;
    if '0' <= c && c <= '9' {
        Some((n - 48) as u64)
    } else if radix == 16 && 'a' <= c && c <= 'f' {
        Some((n - 97 + 10) as u64)
    } else if radix == 16 && 'A' <= c && c <= 'F' {
        Some((n - 65 + 10) as u64)
    } else {
        None
    }
}

/// Parses `v[lo..hi]` as an unsigned integer of `radix` not above `max`.
pub fn parse_uint_range(v: &Vec<char>, lo: usize, hi: usize, radix: u64, max: u64) -> (r: Option<u64>)
    requires
        lo <= hi <= v.len(),
        radix == 10 || radix == 16,
    ensures
        match parse_bounded(v@.subrange(lo as int, hi as int), radix as nat, max as nat) {
            Some(n) => r == Some(n as u64),
            None => r is None,
        },
{
    let ghost s = v@.subrange(lo as int, hi as int);
    let mut start = lo;
    if hi - lo > 1 && v[lo] == '+' {
        start = lo + 1;
    }
    let ghost d = v@.subrange(start as int, hi as int);
    proof {
        assert(d =~= (if s.len() > 1 && s[0] == '+' { s.drop_first() } else { s }));
    }
    if start == hi {
        return None;
    }
    let mut acc: u64 = 0;
    let mut i = start;
    while i < hi
        invariant
            lo <= start <= i <= hi <= v.len(),
            start < hi,
            radix == 10 || radix == 16,
            d == v@.subrange(start as int, hi as int),
            s == v@.subrange(lo as int, hi as int),
            d == (if s.len() > 1 && s[0] == '+' { s.drop_first() } else { s }),
            all_digits(v@.subrange(start as int, i as int), radix as nat),
            acc == digits_value(v@.subrange(start as int, i as int), radix as nat),
            acc <= max,
        decreases hi - i,
    {
        let ghost pre = v@.subrange(start as int, i as int);
        let ghost next = v@.subrange(start as int, i as int + 1);
        proof {
            assert(next.drop_last() =~= pre);
            assert(next.last() == v@[i as int]);
            assert(d.take(i - start + 1) =~= next);
        }
        match digit_of(v[i], radix) {
            None => {
                proof {
                    assert(d[i - start] == v@[i as int]);
                    assert(digit_value(d[i - start], radix as nat) is None);
                    assert(!all_digits(d, radix as nat));
                    assert(parse_uint(s, radix as nat) is None);
                }
                return None;
            }
            Some(dg) => {
                proof {
                    assert(digits_value(next, radix as nat) == acc * radix + dg);
                }
                if dg > max || acc > (max - dg) / radix {
                    proof {
                        let a = acc as int;
                        let r = radix as int;
                        let g = dg as int;
                        let m = max as int;
                        if g <= m {
                            let q = (m - g) / r;
                            assert(a * r + g > m) by (nonlinear_arith)
                                requires
                                    a > q,
                                    q == (m - g) / r,
                                    r > 0,
                                    g <= m,
                            ;
                        } else {
                            assert(a * r >= 0) by (nonlinear_arith)
                                requires
                                    a >= 0,
                                    r > 0,
                            ;
                        }
                        lemma_digits_value_mono(d, radix as nat, i - start + 1);
                        assert(digits_value(d, radix as nat) > max);
                        assert(parse_bounded(s, radix as nat, max as nat) is None);
                    }
                    return None;
                }
                proof {
                    let a = acc as int;
                    let r = radix as int;
                    let g = dg as int;
                    let m = max as int;
                    let q = (m - g) / r;
                    assert(a * r + g <= m) by (nonlinear_arith)
                        requires
                            a <= q,
                            q == (m - g) / r,
                            r > 0,
                            g <= m,
                    ;
                }
                acc = acc * radix + dg;
                proof {
                    assert forall|k: int| 0 <= k < next.len() implies (#[trigger] digit_value(next[k], radix as nat)) is Some by {
                        if k < pre.len() {
                            assert(next[k] == pre[k]);
                        }
                    }
                }
            }
        }
        i = i + 1;
    }
    Some(acc)
}

// ===== line and word ranges =====

/// The pieces of `v` that a list of index ranges denotes.
pub open spec fn ranges_view(v: Seq<char>, r: Seq<(usize, usize)>) -> Seq<Seq<char>> {
    r.map_values(|p: (usize, usize)| v.subrange(p.0 as int, p.1 as int))
}

pub open spec fn ranges_valid(r: Seq<(usize, usize)>, lo: int, hi: int) -> bool {
    forall|i: int| 0 <= i < r.len() ==> lo <= (#[trigger] r[i]).0 <= r[i].1 <= hi
}

proof fn lemma_ranges_view_push(v: Seq<char>, r: Seq<(usize, usize)>, p: (usize, usize))
    ensures
        ranges_view(v, r.push(p)) == ranges_view(v, r).push(v.subrange(p.0 as int, p.1 as int)),
{
    assert(ranges_view(v, r.push(p)) =~= ranges_view(v, r).push(v.subrange(p.0 as int, p.1 as int)));
}

/// Ranges of the lines of `v`, as `str::lines` splits them.
pub fn line_ranges(v: &Vec<char>) -> (r: Vec<(usize, usize)>)
    ensures
        ranges_valid(r@, 0, v@.len() as int),
        ranges_view(v@, r@) == lines_of(v@),
{
    let mut r: Vec<(usize, usize)> = Vec::new();
    let mut lo: usize = 0;
    let n = v.len();
    proof {
        assert(v@.subrange(0, n as int) =~= v@);
    }
    while lo < n
        invariant
            n == v.len(),
            lo <= n,
            ranges_valid(r@, 0, n as int),
            ranges_view(v@, r@) + lines_of(v@.subrange(lo as int, n as int)) == lines_of(v@),
        decreases n - lo,
    {
        let ghost rest = v@.subrange(lo as int, n as int);
        let k = find_char(v, lo, n, '\n');
        proof {
            lemma_index_of_char(rest, '\n');
        }
        if k < n {
            let mut end = k;
            if end > lo && v[end - 1] == '\r' {
                end = end - 1;
            }
            proof {
                let piece = rest.take(k - lo);
                assert(piece =~= v@.subrange(lo as int, k as int));
                assert(strip_cr(piece) =~= v@.subrange(lo as int, end as int));
                assert(rest.skip(k - lo + 1) =~= v@.subrange(k + 1, n as int));
                lemma_ranges_view_push(v@, r@, (lo, end));
            }
            r.push((lo, end));
            proof {
                assert(ranges_view(v@, r@) + lines_of(v@.subrange(k + 1, n as int))
                    =~= (ranges_view(v@, r@.drop_last()) + lines_of(rest)));
            }
            lo = k + 1;
        } else {
            proof {
                lemma_ranges_view_push(v@, r@, (lo, n));
                assert(v@.subrange(n as int, n as int) =~= Seq::<char>::empty());
            }
            r.push((lo, n));
            proof {
                assert(ranges_view(v@, r@) + lines_of(v@.subrange(n as int, n as int))
                    =~= (ranges_view(v@, r@.drop_last()) + lines_of(rest)));
            }
            lo = n;
        }
    }
    proof {
        assert(lines_of(v@.subrange(n as int, n as int)) =~= Seq::<Seq<char>>::empty());
        assert(ranges_view(v@, r@) + Seq::<Seq<char>>::empty() =~= ranges_view(v@, r@));
    }
    r
}

proof fn lemma_word_len_unique(s: Seq<char>, k: int)
    requires
        0 <= k <= s.len(),
        forall|j: int| 0 <= j < k ==> !is_ws(#[trigger] s[j]),
        k < s.len() ==> is_ws(s[k]),
    ensures
        word_len(s) == k,
    decreases s.len(),
{
    if s.len() > 0 && k > 0 {
        assert forall|j: int| 0 <= j < k - 1 implies !is_ws(#[trigger] s.drop_first()[j]) by {
            assert(s.drop_first()[j] == s[j + 1]);
        }
        if k - 1 < s.len() - 1 {
            assert(s.drop_first()[k - 1] == s[k]);
        }
        lemma_word_len_unique(s.drop_first(), k - 1);
    }
}

/// Ranges of the whitespace-separated words of `v[lo..hi]`.
pub fn word_ranges(v: &Vec<char>, lo: usize, hi: usize) -> (r: Vec<(usize, usize)>)
    requires
        lo <= hi <= v.len(),
    ensures
        ranges_valid(r@, lo as int, hi as int),
        ranges_view(v@, r@) == words_of(v@.subrange(lo as int, hi as int)),
{
    let mut r: Vec<(usize, usize)> = Vec::new();
    let mut i = lo;
    while i < hi
        invariant
            lo <= i <= hi <= v.len(),
            ranges_valid(r@, lo as int, hi as int),
            ranges_view(v@, r@) + words_of(v@.subrange(i as int, hi as int)) == words_of(v@.subrange(lo as int, hi as int)),
        decreases hi - i,
    {
        let ghost rest = v@.subrange(i as int, hi as int);
        if is_ws_char(v[i]) {
            proof {
                assert(rest.drop_first() =~= v@.subrange(i + 1, hi as int));
            }
            i = i + 1;
        } else {
            let mut j = i;
            while j < hi && !is_ws_char(v[j])
                invariant
                    i <= j <= hi <= v.len(),
                    forall|k: int| i <= k < j ==> !is_ws(v@[k]),
                decreases hi - j,
            {
                j = j + 1;
            }
            proof {
                assert forall|k: int| 0 <= k < j - i implies !is_ws(#[trigger] rest[k]) by {
                    assert(rest[k] == v@[i + k]);
                }
                if j < hi {
                    assert(rest[j - i] == v@[j as int]);
                }
                lemma_word_len_unique(rest, j - i);
                assert(rest.take(j - i) =~= v@.subrange(i as int, j as int));
                assert(rest.skip(j - i) =~= v@.subrange(j as int, hi as int));
                lemma_ranges_view_push(v@, r@, (i, j));
            }
            r.push((i, j));
            proof {
                assert(ranges_view(v@, r@) + words_of(v@.subrange(j as int, hi as int))
                    =~= (ranges_view(v@, r@.drop_last()) + words_of(rest)));
            }
            i = j;
        }
    }
    proof {
        assert(words_of(v@.subrange(hi as int, hi as int)) =~= Seq::<Seq<char>>::empty());
        assert(ranges_view(v@, r@) + Seq::<Seq<char>>::empty() =~= ranges_view(v@, r@));
    }
    r
}

} // verus!
