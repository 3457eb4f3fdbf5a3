//! Character-level text helpers shared by the parsing modules: finding
//! the first occurrence of a delimiter character in a string and exact
//! string equality, each verified against a sequence-level model.

use vstd::prelude::*;

verus! {

/// The index of the first character of `s` equal to `c1` or `c2`, or -1
/// when neither occurs. Searching for a single character is the case
/// `c1 == c2`.
pub open spec fn find2(s: Seq<char>, c1: char, c2: char) -> int
    decreases s.len(),
{
    if s.len() == 0 {
        -1
    } else if s[0] == c1 || s[0] == c2 {
        0
    } else {
        let r = find2(s.drop_first(), c1, c2);
        if r < 0 {
            -1
        } else {
            r + 1
        }
    }
}

/// What `find2` returns: a match index preceded by non-matches, or -1
/// when no character of `s` matches.
pub proof fn lemma_find2_spec(s: Seq<char>, c1: char, c2: char)
    ensures
        find2(s, c1, c2) >= 0 ==> find2(s, c1, c2) < s.len() && (s[find2(s, c1, c2)] == c1
            || s[find2(s, c1, c2)] == c2) && (forall|k: int|
            0 <= k < find2(s, c1, c2) ==> s[k] != c1 && s[k] != c2),
        find2(s, c1, c2) < 0 ==> forall|k: int| 0 <= k < s.len() ==> s[k] != c1 && s[k] != c2,
    decreases s.len(),
{
    if s.len() == 0 {
    } else if s[0] == c1 || s[0] == c2 {
    } else {
        lemma_find2_spec(s.drop_first(), c1, c2);
        let r = find2(s.drop_first(), c1, c2);
        if r >= 0 {
            assert forall|k: int| 0 <= k < r + 1 implies s[k] != c1 && s[k] != c2 by {
                if k > 0 {
                    assert(s.drop_first()[k - 1] == s[k]);
                }
            }
        } else {
            assert forall|k: int| 0 <= k < s.len() implies s[k] != c1 && s[k] != c2 by {
                if k > 0 {
                    assert(s.drop_first()[k - 1] == s[k]);
                }
            }
        }
    }
}

/// `find2` returns exactly the first matching index.
pub proof fn lemma_find2_at(s: Seq<char>, c1: char, c2: char, i: int)
    requires
        0 <= i < s.len(),
        s[i] == c1 || s[i] == c2,
        forall|k: int| 0 <= k < i ==> s[k] != c1 && s[k] != c2,
    ensures
        find2(s, c1, c2) == i,
    decreases i,
{
    if i == 0 {
    } else {
        assert(s.drop_first()[i - 1] == s[i]);
        assert forall|k: int| 0 <= k < i - 1 implies s.drop_first()[k] != c1 && s.drop_first()[k]
            != c2 by {
            assert(s.drop_first()[k] == s[k + 1]);
        }
        lemma_find2_at(s.drop_first(), c1, c2, i - 1);
    }
}

/// When no character of `s` matches, `find2` returns -1.
pub proof fn lemma_find2_none(s: Seq<char>, c1: char, c2: char)
    requires
        forall|k: int| 0 <= k < s.len() ==> s[k] != c1 && s[k] != c2,
    ensures
        find2(s, c1, c2) == -1,
{
    lemma_find2_spec(s, c1, c2);
}

/// Finds the first occurrence of `c1` or `c2` in `s`, by character
/// position.
pub fn find_char2(s: &str, c1: char, c2: char) -> (r: Option<usize>)
    ensures
        match r {
            Some(i) => find2(s@, c1, c2) == i as int,
            None => find2(s@, c1, c2) == -1,
        },
{
    let n = s.unicode_len();
    let mut i: usize = 0;
    while i < n
        invariant
            n as nat == s@.len(),
            i <= n,
            forall|k: int| 0 <= k < i ==> s@[k] != c1 && s@[k] != c2,
        decreases n - i,
    {
        let c = s.get_char(i);
        if c == c1 || c == c2 {
            proof {
                lemma_find2_at(s@, c1, c2, i as int);
            }
            return Some(i);
        }
        i = i + 1;
    }
    proof {
        lemma_find2_none(s@, c1, c2);
    }
    None
}

/// Exact, case-sensitive string equality at the character level.
pub fn str_eq(a: &str, b: &str) -> (r: bool)
    ensures
        r == (a@ == b@),
{
    let na = a.unicode_len();
    let nb = b.unicode_len();
    if na != nb {
        return false;
    }
    let mut i: usize = 0;
    while i < na
        invariant
            na as nat == a@.len(),
            nb as nat == b@.len(),
            na == nb,
            i <= na,
            forall|k: int| 0 <= k < i ==> a@[k] == b@[k],
        decreases na - i,
    {
        if a.get_char(i) != b.get_char(i) {
            return false;
        }
        i = i + 1;
    }
    proof {
        assert(a@ =~= b@);
    }
    true
}

} // verus!
