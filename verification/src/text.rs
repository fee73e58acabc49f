//! Character-level text model: strings are viewed as sequences of `char`, and
//! the functions here mirror the `str` operations the library needs.

use vstd::prelude::*;
use vstd::slice::slice_subrange;

verus! {

/// Unicode `White_Space`, the set that `char::is_whitespace` tests.
pub open spec fn is_space(c: char) -> bool {
    let n = c as u32;
    n == 0x20 || (0x09 <= n && n <= 0x0D) || n == 0x85 || n == 0xA0 || n == 0x1680 || (0x2000 <= n
        && n <= 0x200A) || n == 0x2028 || n == 0x2029 || n == 0x202F || n == 0x205F || n == 0x3000
}

/// First index at or after `i` that does not hold white space (or `s.len()`).
pub open spec fn skip_space(s: Seq<char>, i: int) -> int
    decreases s.len() - i,
{
    if 0 <= i < s.len() && is_space(s[i]) {
        skip_space(s, i + 1)
    } else {
        i
    }
}

/// End of `s.subrange(0, j)` once its trailing white space is removed.
pub open spec fn back_space(s: Seq<char>, j: int) -> int
    decreases j,
{
    if 0 < j <= s.len() && is_space(s[j - 1]) {
        back_space(s, j - 1)
    } else {
        j
    }
}

/// `str::trim`: `s` without leading and trailing white space.
pub open spec fn trim(s: Seq<char>) -> Seq<char> {
    let a = skip_space(s, 0);
    let b = back_space(s, s.len() as int);
    if a < b {
        s.subrange(a, b)
    } else {
        Seq::empty()
    }
}

pub fn is_space_char(c: char) -> (b: bool)
    ensures
        b == is_space(c),
{
    let n = c as u32;
    n == 0x20 || (0x09 <= n && n <= 0x0D) || n == 0x85 || n == 0xA0 || n == 0x1680 || (0x2000 <= n
        && n <= 0x200A) || n == 0x2028 || n == 0x2029 || n == 0x202F || n == 0x205F || n == 0x3000
}

/// The characters of `s`, in order.
pub fn chars_of(s: &str) -> (v: Vec<char>)
    ensures
        v@ == s@,
{
    let n = s.unicode_len();
    let mut v: Vec<char> = Vec::new();
    for i in 0..n
        invariant
            n == s@.len(),
            v@ == s@.subrange(0, i as int),
    {
        v.push(s.get_char(i));
    }
    v
}

/// `str::trim` on a character slice.
pub fn trim_chars(s: &[char]) -> (t: &[char])
    ensures
        t@ == trim(s@),
{
    let n = s.len();
    let mut a: usize = 0;
    while a < n && is_space_char(s[a])
        invariant
            n == s@.len(),
            a <= n,
            skip_space(s@, 0) == skip_space(s@, a as int),
        decreases n - a,
    {
        a = a + 1;
    }
    let mut b: usize = n;
    while b > 0 && is_space_char(s[b - 1])
        invariant
            n == s@.len(),
            b <= n,
            back_space(s@, n as int) == back_space(s@, b as int),
        decreases b,
    {
        b = b - 1;
    }
    if a < b {
        slice_subrange(s, a, b)
    } else {
        slice_subrange(s, 0, 0)
    }
}


/// Calls `String::push`, which std documents as appending the character to
/// the end of the string: the text grows by exactly `c`.
#[verifier::external_body]
pub(crate) fn push_char(s: &mut String, c: char)
    ensures
        final(s)@ == old(s)@.push(c),
{
    s.push(c);
}

/// A `String` holding exactly the characters of `cs`.
pub fn string_of(cs: &[char]) -> (r: String)
    ensures
        r@ == cs@,
{
    let mut r = String::new();
    let n = cs.len();
    for i in 0..n
        invariant
            n == cs@.len(),
            r@ == cs@.subrange(0, i as int),
    {
        push_char(&mut r, cs[i]);
        assert(cs@.subrange(0, i + 1) == cs@.subrange(0, i as int).push(cs@[i as int]));
    }
    assert(cs@.subrange(0, n as int) == cs@);
    r
}

/// The text without surrounding white space, when anything is left.
pub open spec fn trimmed_nonempty(s: Seq<char>) -> Option<Seq<char>> {
    if trim(s).len() > 0 {
        Some(trim(s))
    } else {
        None
    }
}

pub fn trimmed_nonempty_exec(s: &str) -> (r: Option<String>)
    ensures
        r matches Some(t) ==> trimmed_nonempty(s@) == Some(t@),
        r is None ==> trimmed_nonempty(s@) is None,
{
    let c = chars_of(s);
    let t = trim_chars(c.as_slice());
    if t.len() > 0 {
        Some(string_of(t))
    } else {
        None
    }
}

/// First index at or after `i` that holds `c` (or `s.len()` when there is none).
pub open spec fn find_char(s: Seq<char>, c: char, i: int) -> int
    decreases s.len() - i,
{
    if i < 0 || i >= s.len() {
        s.len() as int
    } else if s[i] == c {
        i
    } else {
        find_char(s, c, i + 1)
    }
}

pub proof fn lemma_find_char_bounds(s: Seq<char>, c: char, i: int)
    requires
        0 <= i <= s.len(),
    ensures
        i <= find_char(s, c, i) <= s.len(),
        find_char(s, c, i) < s.len() ==> s[find_char(s, c, i)] == c,
        forall|k: int| i <= k < find_char(s, c, i) ==> s[k] != c,
    decreases s.len() - i,
{
    if i < s.len() && s[i] != c {
        lemma_find_char_bounds(s, c, i + 1);
    }
}

/// The index of the first `c` in `s` at or after `from`, or `s.len()`.
pub fn find_char_exec(s: &[char], c: char, from: usize) -> (r: usize)
    requires
        from <= s@.len(),
    ensures
        r == find_char(s@, c, from as int),
        from <= r <= s@.len(),
{
    let n = s.len();
    let mut i = from;
    while i < n && s[i] != c
        invariant
            n == s@.len(),
            from <= i <= n,
            find_char(s@, c, from as int) == find_char(s@, c, i as int),
        decreases n - i,
    {
        i = i + 1;
    }
    i
}

/// `find_char` lands on `k` when `c` is absent from `[i, k)` and `k` holds `c`
/// or is the end.
pub proof fn lemma_find_char_at(s: Seq<char>, c: char, i: int, k: int)
    requires
        0 <= i <= k <= s.len(),
        forall|j: int| i <= j < k ==> s[j] != c,
        k < s.len() ==> s[k] == c,
    ensures
        find_char(s, c, i) == k,
    decreases k - i,
{
    if i < k {
        lemma_find_char_at(s, c, i + 1, k);
    }
}

/// `p` occurs in `s` starting at index `i`.
pub open spec fn matches_at(s: Seq<char>, p: Seq<char>, i: int) -> bool {
    0 <= i && i + p.len() <= s.len() && s.subrange(i, i + p.len()) == p
}

/// `str::starts_with`.
pub open spec fn starts_with(s: Seq<char>, p: Seq<char>) -> bool {
    matches_at(s, p, 0)
}

/// `str::ends_with`.
pub open spec fn ends_with(s: Seq<char>, p: Seq<char>) -> bool {
    matches_at(s, p, s.len() - p.len())
}

/// `str::contains` with a string pattern.
pub open spec fn contains(s: Seq<char>, p: Seq<char>) -> bool {
    exists|i: int| matches_at(s, p, i)
}

pub fn matches_at_exec(s: &[char], p: &[char], i: usize) -> (b: bool)
    ensures
        b == matches_at(s@, p@, i as int),
{
    if i > s.len() || p.len() > s.len() - i {
        return false;
    }
    let m = p.len();
    let n = s.len();
    let mut k: usize = 0;
    while k < m
        invariant
            m == p@.len(),
            n == s@.len(),
            i + m <= n,
            k <= m,
            forall|j: int| 0 <= j < k ==> s@[i + j] == p@[j],
        decreases m - k,
    {
        if s[i + k] != p[k] {
            assert(s@.subrange(i as int, i + m)[k as int] != p@[k as int]);
            return false;
        }
        k = k + 1;
    }
    assert(s@.subrange(i as int, i + m) == p@);
    true
}

/// Whether the two texts are equal.
pub fn eq_exec(a: &[char], b: &[char]) -> (r: bool)
    ensures
        r == (a@ == b@),
{
    if a.len() != b.len() {
        return false;
    }
    let r = matches_at_exec(a, b, 0);
    proof {
        if r {
            assert(a@.subrange(0, a@.len() as int) == a@);
        } else {
            assert(a@.subrange(0, a@.len() as int) == a@);
        }
    }
    r
}

pub fn starts_with_exec(s: &[char], p: &[char]) -> (b: bool)
    ensures
        b == starts_with(s@, p@),
{
    matches_at_exec(s, p, 0)
}

pub fn ends_with_exec(s: &[char], p: &[char]) -> (b: bool)
    ensures
        b == ends_with(s@, p@),
{
    if p.len() > s.len() {
        return false;
    }
    matches_at_exec(s, p, s.len() - p.len())
}

/// First index at or after `i` where `p` occurs (or `s.len()`).
pub open spec fn find_pat(s: Seq<char>, p: Seq<char>, i: int) -> int
    decreases s.len() - i,
{
    if i < 0 || i >= s.len() {
        s.len() as int
    } else if matches_at(s, p, i) {
        i
    } else {
        find_pat(s, p, i + 1)
    }
}

pub proof fn lemma_find_pat_bounds(s: Seq<char>, p: Seq<char>, i: int)
    requires
        0 <= i <= s.len(),
    ensures
        i <= find_pat(s, p, i) <= s.len(),
        find_pat(s, p, i) < s.len() ==> matches_at(s, p, find_pat(s, p, i)),
        forall|k: int| i <= k < find_pat(s, p, i) ==> !matches_at(s, p, k),
    decreases s.len() - i,
{
    if i < s.len() && !matches_at(s, p, i) {
        lemma_find_pat_bounds(s, p, i + 1);
    }
}

pub fn find_pat_exec(s: &[char], p: &[char], from: usize) -> (r: usize)
    requires
        from <= s@.len(),
    ensures
        r == find_pat(s@, p@, from as int),
        from <= r <= s@.len(),
{
    let n = s.len();
    let mut i = from;
    while i < n && !matches_at_exec(s, p, i)
        invariant
            n == s@.len(),
            from <= i <= n,
            find_pat(s@, p@, from as int) == find_pat(s@, p@, i as int),
        decreases n - i,
    {
        i = i + 1;
    }
    i
}

pub fn contains_exec(s: &[char], p: &[char]) -> (b: bool)
    requires
        p@.len() > 0,
    ensures
        b == contains(s@, p@),
{
    let r = find_pat_exec(s, p, 0);
    proof {
        lemma_find_pat_bounds(s@, p@, 0);
        if r == s@.len() {
            assert forall|i: int| !matches_at(s@, p@, i) by {
                if 0 <= i < s@.len() {
                } 
            }
        }
    }
    r < s.len()
}


pub proof fn lemma_skip_space_bounds(s: Seq<char>, i: int)
    requires
        0 <= i <= s.len(),
    ensures
        i <= skip_space(s, i) <= s.len(),
        skip_space(s, i) < s.len() ==> !is_space(s[skip_space(s, i)]),
        forall|k: int| i <= k < skip_space(s, i) ==> is_space(s[k]),
    decreases s.len() - i,
{
    if i < s.len() && is_space(s[i]) {
        lemma_skip_space_bounds(s, i + 1);
    }
}

pub proof fn lemma_back_space_bounds(s: Seq<char>, j: int)
    requires
        0 <= j <= s.len(),
    ensures
        0 <= back_space(s, j) <= j,
        back_space(s, j) > 0 ==> !is_space(s[back_space(s, j) - 1]),
        forall|k: int| back_space(s, j) <= k < j ==> is_space(s[k]),
    decreases j,
{
    if 0 < j && is_space(s[j - 1]) {
        lemma_back_space_bounds(s, j - 1);
    }
}

/// A trimmed text has no white space at either end.
pub proof fn lemma_trim_ends(s: Seq<char>)
    ensures
        trim(s).len() > 0 ==> !is_space(trim(s)[0]) && !is_space(trim(s)[trim(s).len() - 1]),
{
    lemma_skip_space_bounds(s, 0);
    lemma_back_space_bounds(s, s.len() as int);
}

/// Trimming a text with no white space at either end leaves it as it is.
pub proof fn lemma_trim_unchanged(t: Seq<char>)
    requires
        t.len() > 0 ==> !is_space(t[0]) && !is_space(t[t.len() - 1]),
    ensures
        trim(t) == t,
{
    if t.len() > 0 {
        assert(skip_space(t, 0) == 0);
        assert(back_space(t, t.len() as int) == t.len());
        assert(t.subrange(0, t.len() as int) == t);
    } else {
        assert(trim(t) == Seq::<char>::empty());
    }
}

proof fn lemma_skip_space_extend(t: Seq<char>, x: Seq<char>, i: int)
    requires
        0 <= i <= t.len(),
    ensures
        skip_space(t, i) < t.len() ==> skip_space(t + x, i) == skip_space(t, i),
        skip_space(t, i) == t.len() ==> skip_space(t + x, i) == skip_space(t + x, t.len() as int),
    decreases t.len() - i,
{
    let s = t + x;
    if i < t.len() {
        assert(s[i] == t[i]);
        if is_space(t[i]) {
            lemma_skip_space_extend(t, x, i + 1);
        }
    }
}

proof fn lemma_back_space_extend(t: Seq<char>, x: Seq<char>, j: int)
    requires
        0 <= j <= t.len(),
    ensures
        back_space(t + x, j) == back_space(t, j),
    decreases j,
{
    if j > 0 {
        assert((t + x)[j - 1] == t[j - 1]);
        lemma_back_space_extend(t, x, j - 1);
    }
}

/// A line break at the end changes nothing once a text is trimmed.
pub proof fn lemma_trim_newline(t: Seq<char>)
    ensures
        trim(t + seq!['\n']) == trim(t),
{
    let s = t + seq!['\n'];
    let a = skip_space(t, 0);
    let b = back_space(t, t.len() as int);
    lemma_skip_space_bounds(t, 0);
    lemma_back_space_bounds(t, t.len() as int);
    lemma_skip_space_extend(t, seq!['\n'], 0);
    lemma_back_space_extend(t, seq!['\n'], t.len() as int);
    assert(s[t.len() as int] == '\n');
    assert(is_space(s[t.len() as int]));
    assert(back_space(s, s.len() as int) == back_space(s, t.len() as int));
    lemma_skip_space_bounds(s, t.len() as int);
    if a < b {
        assert(s.subrange(a, b) =~= t.subrange(a, b));
    }
}

pub proof fn lemma_trim_idempotent(s: Seq<char>)
    ensures
        trim(trim(s)) == trim(s),
{
    lemma_trim_ends(s);
    lemma_trim_unchanged(trim(s));
}

/// First index at or after `i` that holds white space (or `s.len()`).
pub open spec fn find_space(s: Seq<char>, i: int) -> int
    decreases s.len() - i,
{
    if i < 0 || i >= s.len() {
        s.len() as int
    } else if is_space(s[i]) {
        i
    } else {
        find_space(s, i + 1)
    }
}

pub proof fn lemma_find_space_bounds(s: Seq<char>, i: int)
    requires
        0 <= i <= s.len(),
    ensures
        i <= find_space(s, i) <= s.len(),
        find_space(s, i) < s.len() ==> is_space(s[find_space(s, i)]),
        forall|k: int| i <= k < find_space(s, i) ==> !is_space(s[k]),
    decreases s.len() - i,
{
    if i < s.len() && !is_space(s[i]) {
        lemma_find_space_bounds(s, i + 1);
    }
}

/// `str::split_whitespace` on `s` from index `i` on: the maximal runs of
/// non-white-space characters, in order.
pub open spec fn words_from(s: Seq<char>, i: int) -> Seq<Seq<char>>
    decreases s.len() - i,
{
    if i < 0 || i > s.len() {
        Seq::empty()
    } else {
        let a = skip_space(s, i);
        if a >= s.len() {
            Seq::empty()
        } else {
            let b = find_space(s, a);
            proof {
                lemma_skip_space_bounds(s, i);
                lemma_find_space_bounds(s, a);
            }
            seq![s.subrange(a, b)] + words_from(s, b)
        }
    }
}

/// `str::split_whitespace`.
pub open spec fn words(s: Seq<char>) -> Seq<Seq<char>> {
    words_from(s, 0)
}

/// The views of a sequence of character slices.
pub open spec fn views<'a>(v: Seq<&'a [char]>) -> Seq<Seq<char>> {
    v.map_values(|x: &'a [char]| x@)
}

pub fn words_exec<'a>(s: &'a [char]) -> (r: Vec<&'a [char]>)
    ensures
        views(r@) == words(s@),
{
    let n = s.len();
    let mut r: Vec<&'a [char]> = Vec::new();
    let mut i: usize = 0;
    loop
        invariant
            n == s@.len(),
            i <= n,
            views(r@) + words_from(s@, i as int) == words(s@),
        decreases n - i,
    {
        let ghost before = r@;
        let mut a = i;
        while a < n && is_space_char(s[a])
            invariant
                n == s@.len(),
                i <= a <= n,
                skip_space(s@, i as int) == skip_space(s@, a as int),
            decreases n - a,
        {
            a = a + 1;
        }
        if a >= n {
            assert(words_from(s@, i as int) == Seq::<Seq<char>>::empty());
            assert(views(r@) + Seq::<Seq<char>>::empty() == views(r@));
            return r;
        }
        let mut b = a;
        while b < n && !is_space_char(s[b])
            invariant
                n == s@.len(),
                a <= b <= n,
                find_space(s@, a as int) == find_space(s@, b as int),
            decreases n - b,
        {
            b = b + 1;
        }
        proof {
            lemma_skip_space_bounds(s@, i as int);
            lemma_find_space_bounds(s@, a as int);
        }
        let w = slice_subrange(s, a, b);
        r.push(w);
        proof {
            assert(views(r@) == views(before).push(w@));
            assert(words_from(s@, i as int) == seq![s@.subrange(a as int, b as int)] + words_from(
                s@,
                b as int,
            ));
            assert(views(before).push(w@) + words_from(s@, b as int) == views(before) + (seq![
                w@,
            ] + words_from(s@, b as int)));
        }
        i = b;
    }
}

/// `str::split` with the non-empty pattern `p`, on `s` from index `start` on.
pub open spec fn split_from(s: Seq<char>, p: Seq<char>, start: int) -> Seq<Seq<char>>
    decreases s.len() - start,
{
    if p.len() == 0 || start < 0 || start > s.len() {
        Seq::empty()
    } else {
        let m = find_pat(s, p, start);
        if m >= s.len() {
            seq![s.subrange(start, s.len() as int)]
        } else {
            proof {
                lemma_find_pat_bounds(s, p, start);
            }
            seq![s.subrange(start, m)] + split_from(s, p, m + p.len())
        }
    }
}

/// `str::split` with the non-empty pattern `p`.
pub open spec fn split(s: Seq<char>, p: Seq<char>) -> Seq<Seq<char>> {
    split_from(s, p, 0)
}

pub fn split_exec<'a>(s: &'a [char], p: &[char]) -> (r: Vec<&'a [char]>)
    requires
        p@.len() > 0,
    ensures
        views(r@) == split(s@, p@),
        r@.len() > 0,
{
    let n = s.len();
    let mut r: Vec<&'a [char]> = Vec::new();
    let mut start: usize = 0;
    loop
        invariant
            n == s@.len(),
            p@.len() > 0,
            start <= n,
            views(r@) + split_from(s@, p@, start as int) == split(s@, p@),
        decreases n - start,
    {
        let ghost before = r@;
        let m = find_pat_exec(s, p, start);
        proof {
            lemma_find_pat_bounds(s@, p@, start as int);
        }
        if m >= n {
            let w = slice_subrange(s, start, n);
            r.push(w);
            assert(views(r@) == views(before).push(w@));
            assert(split_from(s@, p@, start as int) == seq![w@]);
            assert(views(before) + seq![w@] == views(before).push(w@));
            return r;
        }
        let w = slice_subrange(s, start, m);
        r.push(w);
        proof {
            assert(views(r@) == views(before).push(w@));
            assert(split_from(s@, p@, start as int) == seq![w@] + split_from(
                s@,
                p@,
                m + p@.len(),
            ));
            assert(views(before).push(w@) + split_from(s@, p@, m + p@.len()) == views(before) + (
            seq![w@] + split_from(s@, p@, m + p@.len())));
        }
        start = m + p.len();
    }
}

/// `str::trim_start_matches` with the pattern `p`: every leading repetition of
/// `p` removed.
pub open spec fn strip_leading(s: Seq<char>, p: Seq<char>) -> Seq<char>
    decreases s.len(),
{
    if p.len() > 0 && starts_with(s, p) {
        strip_leading(s.subrange(p.len() as int, s.len() as int), p)
    } else {
        s
    }
}

/// `str::trim_end_matches` with the pattern `p`: every trailing repetition of
/// `p` removed.
pub open spec fn strip_trailing(s: Seq<char>, p: Seq<char>) -> Seq<char>
    decreases s.len(),
{
    if p.len() > 0 && ends_with(s, p) {
        strip_trailing(s.subrange(0, s.len() - p.len()), p)
    } else {
        s
    }
}

pub fn strip_leading_exec<'a>(s: &'a [char], p: &[char]) -> (r: &'a [char])
    ensures
        r@ == strip_leading(s@, p@),
{
    if p.len() == 0 {
        return s;
    }
    let mut t = s;
    while starts_with_exec(t, p)
        invariant
            p@.len() > 0,
            strip_leading(t@, p@) == strip_leading(s@, p@),
        decreases t@.len(),
    {
        t = slice_subrange(t, p.len(), t.len());
    }
    t
}

pub fn strip_trailing_exec<'a>(s: &'a [char], p: &[char]) -> (r: &'a [char])
    ensures
        r@ == strip_trailing(s@, p@),
{
    if p.len() == 0 {
        return s;
    }
    let mut t = s;
    while ends_with_exec(t, p)
        invariant
            p@.len() > 0,
            strip_trailing(t@, p@) == strip_trailing(s@, p@),
        decreases t@.len(),
    {
        t = slice_subrange(t, 0, t.len() - p.len());
    }
    t
}


/// Start of the last `/`-separated segment of `s.subrange(0, j)`.
pub open spec fn segment_start(s: Seq<char>, j: int) -> int
    decreases j,
{
    if 0 < j <= s.len() && s[j - 1] != '/' {
        segment_start(s, j - 1)
    } else {
        j
    }
}

/// `s.rsplit('/').next()`: the text after the last `/` (all of `s` without one).
pub open spec fn last_segment(s: Seq<char>) -> Seq<char> {
    s.subrange(segment_start(s, s.len() as int), s.len() as int)
}

pub proof fn lemma_segment_start_bounds(s: Seq<char>, j: int)
    requires
        0 <= j <= s.len(),
    ensures
        0 <= segment_start(s, j) <= j,
    decreases j,
{
    if 0 < j && s[j - 1] != '/' {
        lemma_segment_start_bounds(s, j - 1);
    }
}

pub fn last_segment_exec(s: &[char]) -> (r: &[char])
    ensures
        r@ == last_segment(s@),
{
    let n = s.len();
    let mut j = n;
    while j > 0 && s[j - 1] != '/'
        invariant
            n == s@.len(),
            j <= n,
            segment_start(s@, n as int) == segment_start(s@, j as int),
        decreases j,
    {
        j = j - 1;
    }
    slice_subrange(s, j, n)
}

/// `s` without one trailing carriage return.
pub open spec fn strip_cr(s: Seq<char>) -> Seq<char> {
    if s.len() > 0 && s.last() == '\r' {
        s.drop_last()
    } else {
        s
    }
}

/// `s.lines().next()`: the text up to the first line feed (without a
/// carriage return just before it); nothing for an empty text.
pub open spec fn first_line(s: Seq<char>) -> Option<Seq<char>> {
    if s.len() == 0 {
        None
    } else {
        let m = find_char(s, '\n', 0);
        if m < s.len() {
            Some(strip_cr(s.subrange(0, m)))
        } else {
            Some(s)
        }
    }
}

pub fn first_line_exec(s: &[char]) -> (r: Option<&[char]>)
    ensures
        r matches Some(l) ==> first_line(s@) == Some(l@),
        r is None ==> first_line(s@) is None,
{
    if s.len() == 0 {
        return None;
    }
    let m = find_char_exec(s, '\n', 0);
    if m < s.len() {
        let l = slice_subrange(s, 0, m);
        if m > 0 && l[m - 1] == '\r' {
            let l2 = slice_subrange(l, 0, m - 1);
            assert(l2@ == l@.drop_last());
            Some(l2)
        } else {
            Some(l)
        }
    } else {
        Some(s)
    }
}


/// The order of `str`: lexicographic by character (UTF-8 keeps the order of
/// code points, so this is also the order of the bytes).
pub open spec fn text_lt(a: Seq<char>, b: Seq<char>) -> bool
    decreases a.len(),
{
    if a.len() == 0 {
        b.len() > 0
    } else if b.len() == 0 {
        false
    } else if a[0] != b[0] {
        a[0] < b[0]
    } else {
        text_lt(a.drop_first(), b.drop_first())
    }
}

pub open spec fn text_le(a: Seq<char>, b: Seq<char>) -> bool {
    a == b || text_lt(a, b)
}

pub proof fn lemma_text_lt_irreflexive(a: Seq<char>)
    ensures
        !text_lt(a, a),
    decreases a.len(),
{
    if a.len() > 0 {
        lemma_text_lt_irreflexive(a.drop_first());
    }
}

/// The order of texts is total: of two different texts, one comes first.
pub proof fn lemma_text_lt_total(a: Seq<char>, b: Seq<char>)
    ensures
        a != b ==> (text_lt(a, b) <==> !text_lt(b, a)),
        a == b ==> !text_lt(a, b),
    decreases a.len(),
{
    lemma_text_lt_irreflexive(a);
    if a.len() > 0 && b.len() > 0 && a[0] == b[0] {
        lemma_text_lt_total(a.drop_first(), b.drop_first());
        if a.drop_first() == b.drop_first() {
            assert(a == seq![a[0]] + a.drop_first());
            assert(b == seq![b[0]] + b.drop_first());
        }
    }
    if a.len() == 0 && b.len() == 0 {
        assert(a == b);
    }
    if a.len() > 0 && b.len() > 0 && a[0] != b[0] {
        assert(a[0] < b[0] || b[0] < a[0]);
    }
}

pub proof fn lemma_text_lt_transitive(a: Seq<char>, b: Seq<char>, c: Seq<char>)
    requires
        text_lt(a, b),
        text_lt(b, c),
    ensures
        text_lt(a, c),
    decreases a.len(),
{
    if a.len() > 0 && b.len() > 0 && c.len() > 0 && a[0] == b[0] && b[0] == c[0] {
        lemma_text_lt_transitive(a.drop_first(), b.drop_first(), c.drop_first());
    }
}

/// Whether `a` comes before `b` in the order of `str`.
pub fn text_lt_exec(a: &[char], b: &[char]) -> (r: bool)
    ensures
        r == text_lt(a@, b@),
{
    let mut k: usize = 0;
    let na = a.len();
    let nb = b.len();
    assert(a@.subrange(0, na as int) == a@);
    assert(b@.subrange(0, nb as int) == b@);
    while k < na && k < nb && a[k] == b[k]
        invariant
            na == a@.len(),
            nb == b@.len(),
            k <= na,
            k <= nb,
            text_lt(a@, b@) == text_lt(
                a@.subrange(k as int, na as int),
                b@.subrange(k as int, nb as int),
            ),
        decreases na - k,
    {
        let ghost sa = a@.subrange(k as int, na as int);
        let ghost sb = b@.subrange(k as int, nb as int);
        assert(sa.drop_first() == a@.subrange(k + 1, na as int));
        assert(sb.drop_first() == b@.subrange(k + 1, nb as int));
        k = k + 1;
    }
    let ghost sa = a@.subrange(k as int, na as int);
    let ghost sb = b@.subrange(k as int, nb as int);
    if k >= na {
        k < nb
    } else if k >= nb {
        false
    } else {
        assert(sa[0] == a@[k as int] && sb[0] == b@[k as int]);
        a[k] < b[k]
    }
}


/// Whether `a` comes before `b` in the order of `str`.
pub fn string_lt(a: &String, b: &String) -> (r: bool)
    ensures
        r == text_lt(a@, b@),
{
    let ac = chars_of(a.as_str());
    let bc = chars_of(b.as_str());
    text_lt_exec(ac.as_slice(), bc.as_slice())
}

/// The texts are in the order of `str`.
pub open spec fn texts_sorted(s: Seq<Seq<char>>) -> bool {
    forall|i: int, j: int| 0 <= i < j < s.len() ==> text_le(s[i], s[j])
}


/// Inserts `x` in order unless an equal text is there already.
pub fn insert_unique_text(r: &mut Vec<String>, x: String)
    requires
        texts_sorted(old(r).deep_view()),
        forall|i: int, j: int|
            0 <= i < j < old(r).deep_view().len() ==> old(r).deep_view()[i] != old(r).deep_view()[j],
    ensures
        texts_sorted(final(r).deep_view()),
        forall|i: int, j: int|
            0 <= i < j < final(r).deep_view().len() ==> final(r).deep_view()[i]
                != final(r).deep_view()[j],
        forall|t: Seq<char>|
            final(r).deep_view().contains(t) <==> (old(r).deep_view().contains(t) || t == x@),
{
    let ghost old_v = r.deep_view();
    let mut j: usize = 0;
    let xs = chars_of(x.as_str());
    while j < r.len() && string_lt(&r[j], &x)
        invariant
            j <= r@.len(),
            r.deep_view() == old_v,
            xs@ == x@,
            forall|k: int| 0 <= k < j ==> text_lt(old_v[k], x@),
        decreases r@.len() - j,
    {
        proof {
            assert(r.deep_view()[j as int] == r@[j as int]@);
        }
        j = j + 1;
    }
    if j < r.len() {
        let rj = chars_of(r[j].as_str());
        if eq_exec(rj.as_slice(), xs.as_slice()) {
            proof {
                assert(r.deep_view()[j as int] == r@[j as int]@);
            }
            return;
        }
    }
    proof {
        if j < old_v.len() {
            assert(r.deep_view()[j as int] == r@[j as int]@);
            lemma_text_lt_total(old_v[j as int], x@);
        }
        assert forall|k: int| j <= k < old_v.len() implies text_lt(x@, old_v[k]) by {
            if k > j {
                assert(text_le(old_v[j as int], old_v[k]));
                assert(old_v[j as int] != old_v[k]);
                lemma_text_lt_transitive(x@, old_v[j as int], old_v[k]);
            }
        }
        assert forall|k: int| 0 <= k < j implies old_v[k] != x@ by {
            lemma_text_lt_irreflexive(x@);
        }
        assert forall|k: int| j <= k < old_v.len() implies old_v[k] != x@ by {
            lemma_text_lt_irreflexive(x@);
        }
    }
    r.insert(j, x);
    proof {
        let nv = r.deep_view();
        assert(nv == old_v.insert(j as int, x@));
        assert forall|a: int, b: int| 0 <= a < b < nv.len() implies text_le(nv[a], nv[b]) && nv[a]
            != nv[b] by {
            if b < j {
            } else if a < j && b == j {
            } else if a < j && b > j {
                assert(nv[b] == old_v[b - 1]);
                lemma_text_lt_transitive(old_v[a], x@, old_v[b - 1]);
                lemma_text_lt_irreflexive(old_v[a]);
            } else if a == j {
                assert(nv[b] == old_v[b - 1]);
            } else {
                assert(nv[a] == old_v[a - 1] && nv[b] == old_v[b - 1]);
            }
        }
        assert forall|t: Seq<char>| nv.contains(t) <==> (old_v.contains(t) || t == x@) by {
            if nv.contains(t) {
                let k = choose|k: int| 0 <= k < nv.len() && nv[k] == t;
                if k < j {
                    assert(old_v[k] == t);
                } else if k > j {
                    assert(old_v[k - 1] == t);
                }
            }
            if old_v.contains(t) {
                let k = choose|k: int| 0 <= k < old_v.len() && old_v[k] == t;
                if k < j {
                    assert(nv[k] == t);
                } else {
                    assert(nv[k + 1] == t);
                }
            }
            if t == x@ {
                assert(nv[j as int] == t);
            }
        }
    }
}


/// `str::lines` on `s` from index `i` on: the texts between line feeds, each
/// without a carriage return just before its line feed; a final line feed
/// does not start another line.
pub open spec fn lines_from(s: Seq<char>, i: int) -> Seq<Seq<char>>
    decreases s.len() - i,
{
    if i < 0 || i >= s.len() {
        Seq::empty()
    } else {
        let m = find_char(s, '\n', i);
        if m < s.len() {
            proof {
                lemma_find_char_bounds(s, '\n', i);
            }
            seq![strip_cr(s.subrange(i, m))] + lines_from(s, m + 1)
        } else {
            seq![s.subrange(i, s.len() as int)]
        }
    }
}

/// `str::lines`.
pub open spec fn lines(s: Seq<char>) -> Seq<Seq<char>> {
    lines_from(s, 0)
}

pub fn lines_exec<'a>(s: &'a [char]) -> (r: Vec<&'a [char]>)
    ensures
        views(r@) == lines(s@),
{
    let n = s.len();
    let mut r: Vec<&'a [char]> = Vec::new();
    let mut i: usize = 0;
    while i < n
        invariant
            n == s@.len(),
            i <= n,
            views(r@) + lines_from(s@, i as int) == lines(s@),
        decreases n - i,
    {
        let ghost before = r@;
        let m = find_char_exec(s, '\n', i);
        proof {
            lemma_find_char_bounds(s@, '\n', i as int);
        }
        if m < n {
            let l = slice_subrange(s, i, m);
            let l2 = if m > i && l[m - i - 1] == '\r' {
                slice_subrange(l, 0, m - i - 1)
            } else {
                l
            };
            assert(l2@ == strip_cr(l@));
            r.push(l2);
            assert(views(r@) == views(before).push(l2@));
            assert(views(before).push(l2@) + lines_from(s@, m + 1) == views(before) + (seq![l2@]
                + lines_from(s@, m + 1)));
            i = m + 1;
        } else {
            let l = slice_subrange(s, i, n);
            r.push(l);
            assert(views(r@) == views(before).push(l@));
            assert(lines_from(s@, i as int) == seq![l@]);
            assert(lines_from(s@, n as int) == Seq::<Seq<char>>::empty());
            assert(views(before) + seq![l@] == views(before).push(l@));
            i = n;
        }
    }
    assert(lines_from(s@, i as int) == Seq::<Seq<char>>::empty());
    assert(views(r@) + Seq::<Seq<char>>::empty() == views(r@));
    r
}

/// Whether `s` contains the text `p`.
pub fn str_contains(s: &str, p: &str) -> (b: bool)
    ensures
        b == contains(s@, p@),
{
    let sc = chars_of(s);
    let pc = chars_of(p);
    if pc.len() == 0 {
        assert(s@.subrange(0, 0) =~= p@);
        assert(matches_at(s@, p@, 0));
        return true;
    }
    contains_exec(sc.as_slice(), pc.as_slice())
}

/// The text of an optional borrowed string.
pub open spec fn opt_view(o: Option<&str>) -> Option<Seq<char>> {
    match o {
        Some(s) => Some(s@),
        None => None,
    }
}

/// The text of an optional string.
pub open spec fn opt_string_view(o: Option<String>) -> Option<Seq<char>> {
    match o {
        Some(s) => Some(s@),
        None => None,
    }
}

/// Shorter texts first, then the order of `str`: for digit strings without
/// leading zeros, the order of the numbers they write.
pub open spec fn shortlex_lt(a: Seq<char>, b: Seq<char>) -> bool {
    a.len() < b.len() || (a.len() == b.len() && text_lt(a, b))
}

pub open spec fn shortlex_le(a: Seq<char>, b: Seq<char>) -> bool {
    a == b || shortlex_lt(a, b)
}

/// The texts are in shortlex order.
pub open spec fn shortlex_sorted(s: Seq<Seq<char>>) -> bool {
    forall|i: int, j: int| 0 <= i < j < s.len() ==> shortlex_le(s[i], s[j])
}

/// Whether `a` comes before `b` in shortlex order.
fn string_shortlex_lt(a: &String, b: &String) -> (r: bool)
    ensures
        r == shortlex_lt(a@, b@),
{
    let ac = chars_of(a.as_str());
    let bc = chars_of(b.as_str());
    ac.len() < bc.len() || (ac.len() == bc.len() && text_lt_exec(ac.as_slice(), bc.as_slice()))
}

/// Inserts `x` where it keeps `r` in shortlex order.
pub fn insert_shortlex(r: &mut Vec<String>, x: String)
    requires
        shortlex_sorted(old(r).deep_view()),
    ensures
        shortlex_sorted(final(r).deep_view()),
        final(r).deep_view().to_multiset() == old(r).deep_view().to_multiset().insert(x@),
        final(r).deep_view().len() == old(r).deep_view().len() + 1,
{
    let ghost old_v = r.deep_view();
    let mut j: usize = 0;
    while j < r.len() && !string_shortlex_lt(&x, &r[j])
        invariant
            j <= r@.len(),
            r.deep_view() == old_v,
            forall|k: int| 0 <= k < j ==> shortlex_le(old_v[k], x@),
        decreases r@.len() - j,
    {
        proof {
            assert(r.deep_view()[j as int] == r@[j as int]@);
            lemma_text_lt_total(x@, old_v[j as int]);
        }
        j = j + 1;
    }
    proof {
        if j < old_v.len() {
            assert(r.deep_view()[j as int] == r@[j as int]@);
        }
        assert forall|k: int| j <= k < old_v.len() implies shortlex_lt(x@, old_v[k]) by {
            if k > j {
                assert(shortlex_le(old_v[j as int], old_v[k]));
                if old_v[j as int] != old_v[k] && old_v[j as int].len() == old_v[k].len()
                    && x@.len() == old_v[k].len() {
                    lemma_text_lt_transitive(x@, old_v[j as int], old_v[k]);
                }
            }
        }
    }
    r.insert(j, x);
    proof {
        let nv = r.deep_view();
        assert(nv == old_v.insert(j as int, x@));
        assert forall|a: int, b: int| 0 <= a < b < nv.len() implies shortlex_le(nv[a], nv[b]) by {
            if b < j {
            } else if a < j && b == j {
            } else if a < j && b > j {
                assert(nv[b] == old_v[b - 1]);
                assert(shortlex_le(old_v[a], x@));
                assert(shortlex_lt(x@, old_v[b - 1]));
                if old_v[a] != x@ && old_v[a].len() == x@.len() && x@.len() == old_v[b - 1].len() {
                    lemma_text_lt_transitive(old_v[a], x@, old_v[b - 1]);
                }
            } else if a == j {
                assert(nv[b] == old_v[b - 1]);
            } else {
                assert(nv[a] == old_v[a - 1] && nv[b] == old_v[b - 1]);
            }
        }
        vstd::seq_lib::to_multiset_insert(old_v, j as int, x@);
    }
}

/// A text that lacks one of the characters of `p` does not contain `p`.
pub proof fn lemma_lacks_char(s: Seq<char>, p: Seq<char>, c: char)
    requires
        p.contains(c),
        forall|i: int| 0 <= i < s.len() ==> s[i] != c,
    ensures
        !contains(s, p),
{
    if contains(s, p) {
        let i = choose|i: int| matches_at(s, p, i);
        let k = choose|k: int| 0 <= k < p.len() && p[k] == c;
        assert(s.subrange(i, i + p.len())[k] == s[i + k]);
    }
}

/// Two texts that lack `p` lack it once joined, unless `p` could straddle the
/// joint: when a character of `p` ends `a` and another begins `b`.
pub proof fn lemma_concat_lacks(a: Seq<char>, b: Seq<char>, p: Seq<char>)
    requires
        p.len() > 0,
        !contains(a, p),
        !contains(b, p),
        a.len() == 0 || b.len() == 0 || !p.contains(a.last()) || !p.contains(b[0]),
    ensures
        !contains(a + b, p),
{
    let s = a + b;
    if contains(s, p) {
        let i = choose|i: int| matches_at(s, p, i);
        if i + p.len() <= a.len() {
            assert(s.subrange(i, i + p.len()) =~= a.subrange(i, i + p.len()));
            assert(matches_at(a, p, i));
        } else if i >= a.len() {
            let j = i - a.len();
            assert(s.subrange(i, i + p.len()) =~= b.subrange(j, j + p.len()));
            assert(matches_at(b, p, j));
        } else {
            let k = a.len() - i;
            assert(s.subrange(i, i + p.len())[k - 1] == a.last());
            assert(s.subrange(i, i + p.len())[k] == b[0]);
            assert(p[k - 1] == a.last());
            assert(p[k] == b[0]);
        }
    }
}

/// A text found inside `x` is found in `a + x + b`.
pub proof fn lemma_contains_within(a: Seq<char>, x: Seq<char>, b: Seq<char>, p: Seq<char>)
    requires
        contains(x, p),
    ensures
        contains(a + x + b, p),
{
    let i = choose|i: int| matches_at(x, p, i);
    let s = a + x + b;
    assert(s.subrange(a.len() + i, a.len() + i + p.len()) =~= x.subrange(i, i + p.len()));
    assert(matches_at(s, p, a.len() + i));
}

/// `p` is found at index `i` of `s`.
pub proof fn lemma_found_at(s: Seq<char>, p: Seq<char>, i: int)
    requires
        0 <= i && i + p.len() <= s.len(),
        s.subrange(i, i + p.len()) == p,
    ensures
        contains(s, p),
{
    assert(matches_at(s, p, i));
}

} // verus!
