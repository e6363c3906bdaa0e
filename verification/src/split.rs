//! Separator-based segment extraction: the digit-pair payload is the segment
//! after the first `/` of the token, and the JWT payload is the segment after
//! the first `.` of the JWT text, each running to the next separator or to the
//! end.

use vstd::prelude::*;

verus! {

/// The least index `>= i` holding `c`, or `s.len()` when none does.
pub open spec fn find_from(s: Seq<char>, c: char, i: int) -> int
    decreases s.len() - i,
{
    if i < 0 || i >= s.len() {
        s.len() as int
    } else if s[i] == c {
        i
    } else {
        find_from(s, c, i + 1)
    }
}

/// `s` holds `c` somewhere at or after index `i`.
pub open spec fn has_char_from(s: Seq<char>, c: char, i: int) -> bool {
    find_from(s, c, i) < s.len()
}

/// The segment between the first occurrence of `sep` and the next one (or the
/// end of `s`). Meaningful only when `sep` occurs in `s`.
pub open spec fn segment_after_first(s: Seq<char>, sep: char) -> Seq<char> {
    let a = find_from(s, sep, 0);
    let b = find_from(s, sep, a + 1);
    s.subrange(a + 1, b)
}

pub proof fn lemma_find_from_bounds(s: Seq<char>, c: char, i: int)
    requires
        0 <= i <= s.len(),
    ensures
        i <= find_from(s, c, i) <= s.len(),
        find_from(s, c, i) < s.len() ==> s[find_from(s, c, i)] == c,
        forall|j: int| i <= j < find_from(s, c, i) ==> s[j] != c,
    decreases s.len() - i,
{
    if i < s.len() && s[i] != c {
        lemma_find_from_bounds(s, c, i + 1);
    }
}

/// Finds the least index `>= i` holding `c`, or the length when none does.
pub fn find_char_from(s: &str, c: char, i: usize) -> (r: usize)
    requires
        i <= s@.len(),
    ensures
        r == find_from(s@, c, i as int),
        r <= s@.len(),
{
    proof {
        lemma_find_from_bounds(s@, c, i as int);
    }
    let n = s.unicode_len();
    let mut j: usize = i;
    while j < n
        invariant
            n == s@.len(),
            i <= j <= n,
            forall|k: int| i <= k < j ==> s@[k] != c,
            find_from(s@, c, i as int) == find_from(s@, c, j as int),
        decreases n - j,
    {
        if s.get_char(j) == c {
            return j;
        }
        j = j + 1;
    }
    n
}

/// The segment of `s` after its first `sep`, up to the next `sep` or the end;
/// `None` exactly when `s` holds no `sep` at all.
pub fn segment_after(s: &str, sep: char) -> (r: Option<&str>)
    ensures
        r is Some <==> has_char_from(s@, sep, 0),
        r is Some ==> r->0@ == segment_after_first(s@, sep),
{
    let n = s.unicode_len();
    let a = find_char_from(s, sep, 0);
    if a == n {
        return None;
    }
    proof {
        lemma_find_from_bounds(s@, sep, a as int + 1);
    }
    let b = find_char_from(s, sep, a + 1);
    Some(s.substring_char(a + 1, b))
}

} // verus!
