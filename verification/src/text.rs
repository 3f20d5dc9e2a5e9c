//! Character-level text utilities shared by the parsers: finding a character,
//! classifying whitespace, and trimming.

use vstd::prelude::*;

verus! {

/// The whitespace characters recognized by this library's parsers: the ASCII
/// whitespace set.
pub open spec fn is_space(c: char) -> bool {
    c == ' ' || c == '\t' || c == '\n' || c == '\r' || c == '\u{c}'
}

/// Exec test for [`is_space`].
pub fn is_space_char(c: char) -> (r: bool)
    ensures
        r == is_space(c),
{
    c == ' ' || c == '\t' || c == '\n' || c == '\r' || c == '\u{c}'
}

/// The least index `j >= i` with `s[j] == c`, or `s.len()` if no such index
/// exists at or after `i`.
pub open spec fn spec_index_of(s: Seq<char>, c: char, i: int) -> int
    decreases s.len() - i,
{
    if i < 0 || i >= s.len() {
        s.len() as int
    } else if s[i] == c {
        i
    } else {
        spec_index_of(s, c, i + 1)
    }
}

pub proof fn lemma_index_of_props(s: Seq<char>, c: char, i: int)
    requires
        0 <= i <= s.len(),
    ensures
        i <= spec_index_of(s, c, i) <= s.len(),
        spec_index_of(s, c, i) < s.len() ==> s[spec_index_of(s, c, i)] == c,
        forall|j: int| i <= j < spec_index_of(s, c, i) ==> s[j] != c,
    decreases s.len() - i,
{
    if i < s.len() && s[i] != c {
        lemma_index_of_props(s, c, i + 1);
    }
}

/// The first occurrence of `c` in `s`, as a character index; `s@.len()` when
/// `c` does not occur.
pub fn find_char(s: &str, c: char) -> (r: usize)
    ensures
        r == spec_index_of(s@, c, 0),
        r <= s@.len(),
{
    let n = s.unicode_len();
    let mut i: usize = 0;
    while i < n
        invariant
            0 <= i <= n,
            n == s@.len(),
            spec_index_of(s@, c, 0) == spec_index_of(s@, c, i as int),
        decreases n - i,
    {
        if s.get_char(i) == c {
            return i;
        }
        i = i + 1;
    }
    i
}

/// Finding a character in a suffix of `s` is finding it in the corresponding
/// subrange, shifted.
pub proof fn lemma_index_of_shift(s: Seq<char>, c: char, p: int, i: int)
    requires
        0 <= p,
        0 <= i,
        p + i <= s.len(),
    ensures
        spec_index_of(s, c, p + i) == p + spec_index_of(
            s.subrange(p, s.len() as int),
            c,
            i,
        ),
    decreases s.len() - p - i,
{
    let t = s.subrange(p, s.len() as int);
    if p + i >= s.len() {
    } else if s[p + i] == c {
        assert(t[i] == c);
    } else {
        assert(t[i] != c);
        lemma_index_of_shift(s, c, p, i + 1);
    }
}

/// The first occurrence of `c` in `s` at or after `from`, as a character
/// index; `s@.len()` when `c` does not occur there.
pub fn find_char_from(s: &str, c: char, from: usize) -> (r: usize)
    requires
        from <= s@.len(),
    ensures
        r == spec_index_of(s@, c, from as int),
        from <= r <= s@.len(),
{
    let n = s.unicode_len();
    let mut i: usize = from;
    proof {
        lemma_index_of_props(s@, c, from as int);
    }
    while i < n
        invariant
            from <= i <= n,
            n == s@.len(),
            spec_index_of(s@, c, from as int) == spec_index_of(s@, c, i as int),
            from as int <= spec_index_of(s@, c, from as int) <= s@.len(),
        decreases n - i,
    {
        if s.get_char(i) == c {
            return i;
        }
        i = i + 1;
    }
    i
}

/// `s` with its leading whitespace removed.
pub open spec fn drop_leading(s: Seq<char>) -> Seq<char>
    decreases s.len(),
{
    if s.len() > 0 && is_space(s[0]) {
        drop_leading(s.subrange(1, s.len() as int))
    } else {
        s
    }
}

/// `s` with its trailing whitespace removed.
pub open spec fn drop_trailing(s: Seq<char>) -> Seq<char>
    decreases s.len(),
{
    if s.len() > 0 && is_space(s[s.len() - 1]) {
        drop_trailing(s.subrange(0, s.len() - 1))
    } else {
        s
    }
}

/// `s` with leading and trailing whitespace removed.
pub open spec fn spec_trim(s: Seq<char>) -> Seq<char> {
    drop_trailing(drop_leading(s))
}

proof fn lemma_drop_leading_prefix(s: Seq<char>, k: int)
    requires
        0 <= k <= s.len(),
        forall|j: int| 0 <= j < k ==> is_space(s[j]),
    ensures
        drop_leading(s) == drop_leading(s.subrange(k, s.len() as int)),
    decreases k,
{
    if k > 0 {
        assert(is_space(s[0]));
        let s1 = s.subrange(1, s.len() as int);
        assert(drop_leading(s) == drop_leading(s1));
        lemma_drop_leading_prefix(s1, k - 1);
        assert(s1.subrange(k - 1, s1.len() as int) =~= s.subrange(k, s.len() as int));
    } else {
        assert(s.subrange(k, s.len() as int) =~= s);
    }
}

proof fn lemma_drop_trailing_suffix(s: Seq<char>, k: int)
    requires
        0 <= k <= s.len(),
        forall|j: int| k <= j < s.len() ==> is_space(s[j]),
    ensures
        drop_trailing(s) == drop_trailing(s.subrange(0, k)),
    decreases s.len() - k,
{
    if k < s.len() {
        assert(is_space(s[s.len() - 1]));
        let s1 = s.subrange(0, s.len() - 1);
        assert(drop_trailing(s) == drop_trailing(s1));
        lemma_drop_trailing_suffix(s1, k);
        assert(s1.subrange(0, k) =~= s.subrange(0, k));
    } else {
        assert(s.subrange(0, k) =~= s);
    }
}

/// If every character in `[i, j)` differs from `c` and `s[j] == c`, then `j`
/// is the first occurrence of `c` at or after `i`.
pub proof fn lemma_index_of_value(s: Seq<char>, c: char, i: int, j: int)
    requires
        0 <= i <= j < s.len(),
        forall|k: int| i <= k < j ==> s[k] != c,
        s[j] == c,
    ensures
        spec_index_of(s, c, i) == j,
    decreases j - i,
{
    if i < j {
        lemma_index_of_value(s, c, i + 1, j);
    }
}

proof fn lemma_drop_leading_len(s: Seq<char>)
    ensures
        drop_leading(s).len() <= s.len(),
        s.len() > 0 && is_space(s[0]) ==> drop_leading(s).len() < s.len(),
    decreases s.len(),
{
    if s.len() > 0 && is_space(s[0]) {
        lemma_drop_leading_len(s.subrange(1, s.len() as int));
    }
}

proof fn lemma_drop_trailing_len(s: Seq<char>)
    ensures
        drop_trailing(s).len() <= s.len(),
        s.len() > 0 && is_space(s[s.len() - 1]) ==> drop_trailing(s).len() < s.len(),
    decreases s.len(),
{
    if s.len() > 0 && is_space(s[s.len() - 1]) {
        lemma_drop_trailing_len(s.subrange(0, s.len() - 1));
    }
}

/// A nonempty sequence that is its own trim neither starts nor ends with
/// whitespace.
pub proof fn lemma_trimmed_ends_clean(s: Seq<char>)
    requires
        s == spec_trim(s),
        s.len() > 0,
    ensures
        !is_space(s[0]),
        !is_space(s[s.len() - 1]),
{
    lemma_drop_leading_len(s);
    lemma_drop_trailing_len(s);
    if is_space(s[0]) {
        lemma_drop_trailing_len(drop_leading(s));
        assert(spec_trim(s).len() < s.len());
    }
    if is_space(s[s.len() - 1]) {
        assert(drop_leading(s) == s);
        assert(spec_trim(s).len() < s.len());
    }
}

/// A sequence whose first character is not whitespace is unchanged by
/// [`drop_leading`]; one whose last character is not whitespace is unchanged
/// by [`drop_trailing`].
pub proof fn lemma_trim_of_clean(s: Seq<char>)
    ensures
        s.len() > 0 && !is_space(s[0]) ==> drop_leading(s) == s,
        s.len() > 0 && !is_space(s[s.len() - 1]) ==> drop_trailing(s) == s,
{
}

/// The trimmed view of `s`, computed by scanning for the first and last
/// non-whitespace characters.
pub fn trim(s: &str) -> (r: &str)
    ensures
        r@ == spec_trim(s@),
{
    let n = s.unicode_len();
    let mut lo: usize = 0;
    while lo < n && is_space_char(s.get_char(lo))
        invariant
            0 <= lo <= n,
            n == s@.len(),
            forall|j: int| 0 <= j < lo ==> is_space(s@[j]),
        decreases n - lo,
    {
        lo = lo + 1;
    }
    let mut hi: usize = n;
    while hi > lo && is_space_char(s.get_char(hi - 1))
        invariant
            lo <= hi <= n,
            n == s@.len(),
            forall|j: int| 0 <= j < lo ==> is_space(s@[j]),
            forall|j: int| hi <= j < n ==> is_space(s@[j]),
            lo < n ==> !is_space(s@[lo as int]),
        decreases hi,
    {
        hi = hi - 1;
    }
    let r = s.substring_char(lo, hi);
    proof {
        let sv = s@;
        lemma_drop_leading_prefix(sv, lo as int);
        let tail = sv.subrange(lo as int, sv.len() as int);
        if lo < n {
            assert(tail.len() > 0 && !is_space(tail[0]));
        }
        assert(drop_leading(sv) == tail);
        lemma_drop_trailing_suffix(tail, hi - lo);
        assert(tail.subrange(0, hi - lo) =~= sv.subrange(lo as int, hi as int));
        let mid = sv.subrange(lo as int, hi as int);
        if hi > lo {
            assert(!is_space(mid[mid.len() - 1]));
        }
        assert(drop_trailing(mid) == mid);
        assert(r@ == spec_trim(s@));
    }
    r
}

/// Exec string equality, by view.
pub fn str_eq(a: &str, b: &str) -> (r: bool)
    ensures
        r == (a@ == b@),
{
    let n = a.unicode_len();
    let m = b.unicode_len();
    if n != m {
        return false;
    }
    let mut i: usize = 0;
    while i < n
        invariant
            0 <= i <= n,
            n == a@.len(),
            n == b@.len(),
            forall|j: int| 0 <= j < i ==> a@[j] == b@[j],
        decreases n - i,
    {
        if a.get_char(i) != b.get_char(i) {
            return false;
        }
        i = i + 1;
    }
    assert(a@ =~= b@);
    true
}

/// `pre` is a prefix of `s`.
pub open spec fn has_prefix(s: Seq<char>, pre: Seq<char>) -> bool {
    pre.len() <= s.len() && s.subrange(0, pre.len() as int) == pre
}

/// Exec prefix test against another string slice.
pub fn starts_with(s: &str, pre: &str) -> (r: bool)
    ensures
        r == has_prefix(s@, pre@),
{
    let n = s.unicode_len();
    let m = pre.unicode_len();
    if m > n {
        assert(!has_prefix(s@, pre@));
        return false;
    }
    let mut i: usize = 0;
    while i < m
        invariant
            0 <= i <= m,
            m <= n,
            n == s@.len(),
            m == pre@.len(),
            forall|j: int| 0 <= j < i ==> s@[j] == pre@[j],
        decreases m - i,
    {
        if s.get_char(i) != pre.get_char(i) {
            assert(s@.subrange(0, m as int)[i as int] != pre@[i as int]);
            return false;
        }
        i = i + 1;
    }
    assert(s@.subrange(0, m as int) =~= pre@);
    true
}

} // verus!
