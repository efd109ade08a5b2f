//! Character-level text operations used by the parsers: splitting a string
//! into its characters, searching for a pattern, trimming whitespace,
//! counting a character and lower-casing.

use vstd::prelude::*;

verus! {

broadcast use vstd::string::group_string_axioms;

/// The characters of `s`, in order.
pub fn chars_of(s: &str) -> (v: Vec<char>)
    ensures
        v@ == s@,
{
    let mut v: Vec<char> = Vec::new();
    for c in it: s.chars()
        invariant
            it.seq() == s@,
            v@ == it.seq().take(it.index()),
    {
        v.push(c);
    }
    v
}

/// The owned string made of the characters `from..to` of `s`.
pub fn substring(s: &str, from: usize, to: usize) -> (r: String)
    requires
        from <= to <= s@.len(),
    ensures
        r@ == s@.subrange(from as int, to as int),
{
    String::from_str(s.substring_char(from, to))
}

/// The characters `lo..hi` of `v`.
pub fn copy_range(v: &Vec<char>, lo: usize, hi: usize) -> (r: Vec<char>)
    requires
        lo <= hi <= v.len(),
    ensures
        r@ == v@.subrange(lo as int, hi as int),
{
    let mut r: Vec<char> = Vec::new();
    let mut i: usize = lo;
    while i < hi
        invariant
            lo <= i <= hi <= v.len(),
            r@ == v@.subrange(lo as int, i as int),
        decreases hi - i,
    {
        r.push(v[i]);
        assert(r@ =~= v@.subrange(lo as int, i + 1));
        i = i + 1;
    }
    r
}

/// A character occurs in a sequence at most as many times as it is long.
pub proof fn lemma_count_char_le_len(s: Seq<char>, c: char)
    ensures
        count_char(s, c) <= s.len(),
    decreases s.len(),
{
    if s.len() > 0 {
        lemma_count_char_le_len(s.drop_last(), c);
    }
}

/// Whether two character sequences are equal.
pub fn chars_eq(a: &Vec<char>, b: &Vec<char>) -> (r: bool)
    ensures
        r == (a@ == b@),
{
    if a.len() != b.len() {
        return false;
    }
    let mut i: usize = 0;
    while i < a.len()
        invariant
            a.len() == b.len(),
            0 <= i <= a.len(),
            forall|j: int| 0 <= j < i ==> a@[j] == b@[j],
        decreases a.len() - i,
    {
        if a[i] != b[i] {
            return false;
        }
        i = i + 1;
    }
    assert(a@ =~= b@);
    true
}

// ---------------------------------------------------------------------------
// Searching
// ---------------------------------------------------------------------------

/// Whether `p` occurs in `h` starting at index `i`.
pub open spec fn occurs_at(h: Seq<char>, p: Seq<char>, i: int) -> bool {
    0 <= i && i + p.len() <= h.len() && h.subrange(i, i + p.len()) == p
}

/// Whether `p` occurs anywhere in `h`.
pub open spec fn has_substring(h: Seq<char>, p: Seq<char>) -> bool {
    exists|i: int| occurs_at(h, p, i)
}

/// The first index at or after `from` where `p` occurs in `h`, if any.
pub open spec fn find_from(h: Seq<char>, p: Seq<char>, from: int) -> Option<int>
    decreases h.len() - from,
{
    if from < 0 || from + p.len() > h.len() {
        None
    } else if occurs_at(h, p, from) {
        Some(from)
    } else if from >= h.len() {
        None
    } else {
        find_from(h, p, from + 1)
    }
}

/// `find_from` gives the first occurrence at or after `from`, and gives
/// `None` exactly when there is none there.
pub proof fn lemma_find_from(h: Seq<char>, p: Seq<char>, from: int)
    requires
        0 <= from,
    ensures
        match find_from(h, p, from) {
            Some(i) => from <= i && occurs_at(h, p, i) && forall|j: int|
                from <= j < i ==> !occurs_at(h, p, j),
            None => forall|j: int| from <= j ==> !occurs_at(h, p, j),
        },
    decreases h.len() - from,
{
    if from + p.len() > h.len() {
    } else if occurs_at(h, p, from) {
    } else if from >= h.len() {
        assert(h.subrange(from, from + p.len()) =~= p);
    } else {
        lemma_find_from(h, p, from + 1);
    }
}

/// `p` occurs in `h` exactly when a search from the start finds it.
pub proof fn lemma_has_substring_find(h: Seq<char>, p: Seq<char>)
    ensures
        has_substring(h, p) <==> find_from(h, p, 0) is Some,
{
    lemma_find_from(h, p, 0);
    if find_from(h, p, 0) is Some {
        let i = find_from(h, p, 0)->0;
        assert(occurs_at(h, p, i));
    }
}

/// Searching the tail of `h` that starts at `o` is searching `h` from `o`
/// on, with indices shifted by `o`.
pub proof fn lemma_find_shift(h: Seq<char>, p: Seq<char>, o: int, j: int)
    requires
        0 <= o <= h.len(),
        0 <= j,
    ensures
        match find_from(h.subrange(o, h.len() as int), p, j) {
            Some(i) => find_from(h, p, o + j) == Some(o + i),
            None => find_from(h, p, o + j) is None,
        },
    decreases h.len() - o - j,
{
    let t = h.subrange(o, h.len() as int);
    if j + p.len() > t.len() {
    } else {
        assert(t.subrange(j, j + p.len()) =~= h.subrange(o + j, o + j + p.len()));
        if occurs_at(t, p, j) {
        } else if j >= t.len() {
        } else {
            lemma_find_shift(h, p, o, j + 1);
        }
    }
}

/// Whether `p` occurs in `h` at index `i`.
pub fn occurs_at_exec(h: &Vec<char>, p: &Vec<char>, i: usize) -> (r: bool)
    ensures
        r == occurs_at(h@, p@, i as int),
{
    if i > h.len() || p.len() > h.len() - i {
        return false;
    }
    let mut j: usize = 0;
    while j < p.len()
        invariant
            i + p.len() <= h.len(),
            0 <= j <= p.len(),
            forall|k: int| 0 <= k < j ==> h@[i + k] == p@[k],
        decreases p.len() - j,
    {
        if h[i + j] != p[j] {
            assert(h@.subrange(i as int, i + p.len())[j as int] != p@[j as int]);
            return false;
        }
        j = j + 1;
    }
    assert(h@.subrange(i as int, i + p.len()) =~= p@);
    true
}

/// The first index at or after `from` where `p` occurs in `h`.
pub fn find_chars(h: &Vec<char>, p: &Vec<char>, from: usize) -> (r: Option<usize>)
    ensures
        match r {
            Some(i) => find_from(h@, p@, from as int) == Some(i as int),
            None => find_from(h@, p@, from as int) is None,
        },
{
    let mut i: usize = from;
    while i <= h.len() && p.len() <= h.len() - i
        invariant
            from <= i,
            find_from(h@, p@, from as int) == find_from(h@, p@, i as int),
        decreases h.len() + 1 - i,
    {
        if occurs_at_exec(h, p, i) {
            return Some(i);
        }
        if i >= h.len() {
            return None;
        }
        i = i + 1;
    }
    None
}

/// Whether `p` occurs in `h`.
pub fn contains_chars(h: &Vec<char>, p: &Vec<char>) -> (r: bool)
    ensures
        r == has_substring(h@, p@),
{
    proof {
        lemma_has_substring_find(h@, p@);
    }
    find_chars(h, p, 0).is_some()
}

/// Whether the string `p` occurs in the string `h`.
pub fn str_contains(h: &str, p: &str) -> (r: bool)
    ensures
        r == has_substring(h@, p@),
{
    let hv = chars_of(h);
    let pv = chars_of(p);
    contains_chars(&hv, &pv)
}

/// The number of times `c` occurs in `s`.
pub open spec fn count_char(s: Seq<char>, c: char) -> nat
    decreases s.len(),
{
    if s.len() == 0 {
        0
    } else {
        count_char(s.drop_last(), c) + if s.last() == c { 1nat } else { 0nat }
    }
}

/// The number of times `c` occurs in `s`.
pub fn count_char_exec(s: &Vec<char>, c: char) -> (r: usize)
    ensures
        r == count_char(s@, c),
{
    let mut n: usize = 0;
    let mut i: usize = 0;
    while i < s.len()
        invariant
            0 <= i <= s.len(),
            n == count_char(s@.take(i as int), c),
            n <= i,
        decreases s.len() - i,
    {
        assert(s@.take(i + 1).drop_last() =~= s@.take(i as int));
        if s[i] == c {
            n = n + 1;
        }
        i = i + 1;
    }
    assert(s@.take(s.len() as int) =~= s@);
    n
}

// ---------------------------------------------------------------------------
// Whitespace
// ---------------------------------------------------------------------------

/// Unicode `White_Space` characters, as `char::is_whitespace` defines them.
pub open spec fn is_whitespace(c: char) -> bool {
    ||| ('\u{9}' <= c && c <= '\u{d}')
    ||| c == ' '
    ||| c == '\u{85}'
    ||| c == '\u{a0}'
    ||| c == '\u{1680}'
    ||| ('\u{2000}' <= c && c <= '\u{200a}')
    ||| c == '\u{2028}'
    ||| c == '\u{2029}'
    ||| c == '\u{202f}'
    ||| c == '\u{205f}'
    ||| c == '\u{3000}'
}

/// Whether `c` is a Unicode `White_Space` character.
pub fn is_whitespace_exec(c: char) -> (r: bool)
    ensures
        r == is_whitespace(c),
{
    ('\u{9}' <= c && c <= '\u{d}') || c == ' ' || c == '\u{85}' || c == '\u{a0}' || c
        == '\u{1680}' || ('\u{2000}' <= c && c <= '\u{200a}') || c == '\u{2028}' || c
        == '\u{2029}' || c == '\u{202f}' || c == '\u{205f}' || c == '\u{3000}'
}

/// `s` without its leading whitespace.
pub open spec fn trim_start(s: Seq<char>) -> Seq<char>
    decreases s.len(),
{
    if s.len() > 0 && is_whitespace(s[0]) {
        trim_start(s.drop_first())
    } else {
        s
    }
}

/// `s` without its trailing whitespace.
pub open spec fn trim_end(s: Seq<char>) -> Seq<char>
    decreases s.len(),
{
    if s.len() > 0 && is_whitespace(s.last()) {
        trim_end(s.drop_last())
    } else {
        s
    }
}

/// `s` without its leading and trailing whitespace.
pub open spec fn trim(s: Seq<char>) -> Seq<char> {
    trim_end(trim_start(s))
}

/// Where the trimmed start of `s` begins: `trim_start(s)` is `s` from `k` on.
pub proof fn trim_start_offset(s: Seq<char>) -> (k: int)
    ensures
        0 <= k <= s.len(),
        trim_start(s) == s.subrange(k, s.len() as int),
        forall|q: int| 0 <= q < k ==> is_whitespace(#[trigger] s[q]),
    decreases s.len(),
{
    if s.len() > 0 && is_whitespace(s[0]) {
        let k = trim_start_offset(s.drop_first());
        assert(s.drop_first().subrange(k, s.drop_first().len() as int) =~= s.subrange(
            k + 1,
            s.len() as int,
        ));
        assert forall|q: int| 0 <= q < k + 1 implies is_whitespace(#[trigger] s[q]) by {
            if q > 0 {
                assert(s[q] == s.drop_first()[q - 1]);
            }
        }
        k + 1
    } else {
        assert(s.subrange(0, s.len() as int) =~= s);
        0
    }
}

/// Where the trimmed end of `s` ends: `trim_end(s)` is `s` up to `k`.
pub proof fn trim_end_offset(s: Seq<char>) -> (k: int)
    ensures
        0 <= k <= s.len(),
        trim_end(s) == s.subrange(0, k),
    decreases s.len(),
{
    if s.len() > 0 && is_whitespace(s.last()) {
        let k = trim_end_offset(s.drop_last());
        assert(s.drop_last().subrange(0, k) =~= s.subrange(0, k));
        k
    } else {
        assert(s.subrange(0, s.len() as int) =~= s);
        s.len() as int
    }
}

/// Trimming the start of a text that goes on after `x` trims the same
/// characters, when `x` is not all whitespace.
pub proof fn lemma_trim_start_extend(x: Seq<char>, z: Seq<char>)
    requires
        trim_start(x).len() > 0,
    ensures
        trim_start(x + z) == trim_start(x) + z,
    decreases x.len(),
{
    if x.len() > 0 && is_whitespace(x[0]) {
        assert((x + z).drop_first() =~= x.drop_first() + z);
        lemma_trim_start_extend(x.drop_first(), z);
    } else {
        assert(x.len() > 0);
        assert((x + z)[0] == x[0]);
    }
}

/// An occurrence found in `x` is found, first, in any text that goes on
/// after `x`.
pub proof fn lemma_find_from_extend(x: Seq<char>, z: Seq<char>, p: Seq<char>, from: int)
    requires
        find_from(x, p, from) is Some,
    ensures
        find_from(x + z, p, from) == find_from(x, p, from),
    decreases x.len() - from,
{
    assert(0 <= from && from + p.len() <= x.len());
    assert((x + z).subrange(from, from + p.len()) =~= x.subrange(from, from + p.len()));
    if occurs_at(x, p, from) {
    } else {
        lemma_find_from_extend(x, z, p, from + 1);
    }
}

/// A pattern that occurs in `s` trimmed occurs in `s`.
pub proof fn lemma_trim_keeps_substring(s: Seq<char>, p: Seq<char>)
    ensures
        has_substring(trim(s), p) ==> has_substring(s, p),
{
    if has_substring(trim(s), p) {
        let a = trim_start_offset(s);
        let t = trim_start(s);
        let b = trim_end_offset(t);
        let i = choose|i: int| occurs_at(trim(s), p, i);
        assert(trim(s) =~= s.subrange(a, a + b));
        assert(s.subrange(a + i, a + i + p.len()) =~= trim(s).subrange(i, i + p.len()));
        assert(occurs_at(s, p, a + i));
    }
}

/// The index of the first character of `s` at or after `from` that is not
/// whitespace (or the length of `s`), with the trimmed tail it starts.
pub fn skip_whitespace(s: &Vec<char>, from: usize) -> (r: usize)
    requires
        from <= s.len(),
    ensures
        from <= r <= s.len(),
        trim_start(s@.subrange(from as int, s.len() as int)) == s@.subrange(
            r as int,
            s.len() as int,
        ),
{
    let mut a: usize = from;
    while a < s.len() && is_whitespace_exec(s[a])
        invariant
            from <= a <= s.len(),
            trim_start(s@.subrange(from as int, s.len() as int)) == trim_start(
                s@.subrange(a as int, s.len() as int),
            ),
        decreases s.len() - a,
    {
        assert(s@.subrange(a as int, s.len() as int).drop_first() =~= s@.subrange(
            a + 1,
            s.len() as int,
        ));
        a = a + 1;
    }
    a
}

/// The bounds `(a, b)` of `s` with leading and trailing whitespace removed.
pub fn trim_bounds(s: &Vec<char>) -> (r: (usize, usize))
    ensures
        r.0 <= r.1 <= s.len(),
        trim(s@) == s@.subrange(r.0 as int, r.1 as int),
{
    let a: usize = skip_whitespace(s, 0);
    assert(s@.subrange(0, s.len() as int) =~= s@);
    let mut b: usize = s.len();
    while b > a && is_whitespace_exec(s[b - 1])
        invariant
            a <= b <= s.len(),
            trim(s@) == trim_end(s@.subrange(a as int, b as int)),
        decreases b,
    {
        assert(s@.subrange(a as int, b as int).drop_last() =~= s@.subrange(
            a as int,
            b - 1,
        ));
        b = b - 1;
    }
    (a, b)
}

/// `s` without leading and trailing whitespace, as `str::trim` gives it.
pub fn trim_str(s: &str) -> (r: &str)
    ensures
        r@ == trim(s@),
{
    let v = chars_of(s);
    let (a, b) = trim_bounds(&v);
    s.substring_char(a, b)
}

// ---------------------------------------------------------------------------
// Lower case
// ---------------------------------------------------------------------------

/// What `str::to_lowercase` returns for a string with the characters `s`.
pub uninterp spec fn lowercase(s: Seq<char>) -> Seq<char>;

/// Whether every character of `s` is ASCII.
pub open spec fn all_ascii(s: Seq<char>) -> bool {
    forall|i: int| 0 <= i < s.len() ==> (s[i] as u32) < 128
}

/// The ASCII lower case of `c`: `A`..`Z` become `a`..`z`, others stay.
pub open spec fn ascii_lower(c: char) -> char {
    if 'A' <= c && c <= 'Z' {
        ((c as u32) + 32) as char
    } else {
        c
    }
}

/// The ASCII upper case of `c`: `a`..`z` become `A`..`Z`, others stay.
pub open spec fn ascii_upper(c: char) -> char {
    if 'a' <= c && c <= 'z' {
        ((c as u32) - 32) as char
    } else {
        c
    }
}

/// Calls `str::to_lowercase`. The result is named `lowercase(s@)`; for an
/// all-ASCII string it is also stated: each letter `A`..`Z` becomes
/// `a`..`z` and every other character stays (the Unicode lower-case mapping
/// of an ASCII character is its ASCII lower case). What the mapping gives
/// for other characters is left unsaid.
#[verifier::external_body]
pub(crate) fn to_lowercase(s: &str) -> (r: String)
    ensures
        r@ == lowercase(s@),
        all_ascii(s@) ==> r@ == s@.map_values(|c: char| ascii_lower(c)),
{
    s.to_lowercase()
}

} // verus!
