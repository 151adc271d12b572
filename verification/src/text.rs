//! Character scanning over strings: first occurrence of a separator and the
//! split of a token around it. Both the alias split (on `=`) and the
//! repository/tag split (on `:`) are stated with these definitions.

use vstd::prelude::*;

verus! {

/// `i` is the index of the first occurrence of `x` in `s`.
pub open spec fn first_at<A>(s: Seq<A>, x: A, i: int) -> bool {
    &&& 0 <= i < s.len()
    &&& s[i] == x
    &&& forall|j: int| 0 <= j < i ==> s[j] != x
}

/// The index of the first occurrence of `c` in `s`; meaningful only when
/// `s.contains(c)`.
pub open spec fn first_index(s: Seq<char>, c: char) -> int {
    choose|i: int| first_at(s, c, i)
}

/// A first occurrence exists for any contained element, and it is unique.
pub proof fn lemma_first_index(s: Seq<char>, c: char, i: int)
    requires
        first_at(s, c, i),
    ensures
        s.contains(c),
        first_index(s, c) == i,
{
    assert(s.contains(c)) by {
        assert(s[i] == c);
    }
    let i2 = choose|j: int| first_at(s, c, j);
    assert(first_at(s, c, i2));
    if i2 < i {
        assert(s[i2] != c);
    } else if i < i2 {
        assert(s[i] != c);
    }
}

/// Finds the first occurrence of the character `c` in `s`, if any.
pub fn find_char(s: &str, c: char) -> (r: Option<usize>)
    ensures
        match r {
            Some(i) => first_at(s@, c, i as int) && s@.contains(c),
            None => !s@.contains(c),
        },
{
    let n = s.unicode_len();
    let mut i: usize = 0;
    while i < n
        invariant
            i <= n,
            n == s@.len(),
            forall|j: int| 0 <= j < i ==> s@[j] != c,
        decreases n - i,
    {
        if s.get_char(i) == c {
            return Some(i);
        }
        i = i + 1;
    }
    None
}

} // verus!
