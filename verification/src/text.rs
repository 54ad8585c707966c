//! Searching text from its end, as `str::rsplit_once` does.
use vstd::prelude::*;
use vstd::string::*;

verus! {

/// The position of the last `c` in `s`.
pub open spec fn rfind_char(s: Seq<char>, c: char) -> Option<int>
    decreases s.len(),
{
    if s.len() == 0 {
        None
    } else if s.last() == c {
        Some(s.len() - 1)
    } else {
        rfind_char(s.drop_last(), c)
    }
}

/// Whether `"://"` starts at position `i` of `s`.
pub open spec fn sep_at(s: Seq<char>, i: int) -> bool {
    0 <= i && i + 3 <= s.len() && s[i] == ':' && s[i + 1] == '/' && s[i + 2] == '/'
}

/// The position of the last `"://"` in `s`.
pub open spec fn rfind_sep(s: Seq<char>) -> Option<int>
    decreases s.len(),
{
    if s.len() < 3 {
        None
    } else if sep_at(s, s.len() - 3) {
        Some(s.len() - 3)
    } else {
        rfind_sep(s.drop_last())
    }
}

/// The last `c` of `s` is at `k` when `s[k]` is `c` and none follows it.
pub proof fn lemma_rfind_char_found(s: Seq<char>, c: char, k: int)
    requires
        0 <= k < s.len(),
        s[k] == c,
        forall|j: int| k < j < s.len() ==> s[j] != c,
    ensures
        rfind_char(s, c) == Some(k),
    decreases s.len(),
{
    if s.len() - 1 != k {
        let t = s.drop_last();
        assert forall|j: int| k < j < t.len() implies t[j] != c by {
            assert(t[j] == s[j]);
        }
        lemma_rfind_char_found(t, c, k);
    }
}

/// A text without `c` has no last `c`.
pub proof fn lemma_rfind_char_none(s: Seq<char>, c: char)
    requires
        forall|j: int| 0 <= j < s.len() ==> s[j] != c,
    ensures
        rfind_char(s, c) is None,
    decreases s.len(),
{
    if s.len() > 0 {
        let t = s.drop_last();
        assert forall|j: int| 0 <= j < t.len() implies t[j] != c by {
            assert(t[j] == s[j]);
        }
        lemma_rfind_char_none(t, c);
    }
}

/// The last `"://"` of `s` is at `k` when one starts there and none after.
pub proof fn lemma_rfind_sep_found(s: Seq<char>, k: int)
    requires
        sep_at(s, k),
        forall|j: int| k < j ==> !sep_at(s, j),
    ensures
        rfind_sep(s) == Some(k),
    decreases s.len(),
{
    if s.len() - 3 != k {
        let t = s.drop_last();
        assert(sep_at(t, k));
        assert forall|j: int| k < j implies !sep_at(t, j) by {
            if sep_at(t, j) {
                assert(sep_at(s, j));
            }
        }
        lemma_rfind_sep_found(t, k);
    }
}

/// A text without `"://"` has no last one.
pub proof fn lemma_rfind_sep_none(s: Seq<char>)
    requires
        forall|j: int| !sep_at(s, j),
    ensures
        rfind_sep(s) is None,
    decreases s.len(),
{
    if s.len() >= 3 {
        let t = s.drop_last();
        assert forall|j: int| !sep_at(t, j) by {
            if sep_at(t, j) {
                assert(sep_at(s, j));
            }
        }
        lemma_rfind_sep_none(t);
    }
}

/// The position of the last `c` in `s`.
pub fn rfind_char_in(s: &str, c: char) -> (r: Option<usize>)
    ensures
        r matches Some(k) ==> k < s@.len() && rfind_char(s@, c) == Some(k as int),
        r is None ==> rfind_char(s@, c) is None,
{
    let n = s.unicode_len();
    let mut i = n;
    while i > 0
        invariant
            n == s@.len(),
            i <= n,
            forall|j: int| i <= j < n ==> s@[j] != c,
        decreases i,
    {
        if s.get_char(i - 1) == c {
            proof {
                lemma_rfind_char_found(s@, c, i - 1);
            }
            return Some(i - 1);
        }
        i = i - 1;
    }
    proof {
        lemma_rfind_char_none(s@, c);
    }
    None
}

/// The position of the last `"://"` in `s`.
pub fn rfind_sep_in(s: &str) -> (r: Option<usize>)
    ensures
        r matches Some(k) ==> k + 3 <= s@.len() && rfind_sep(s@) == Some(k as int),
        r is None ==> rfind_sep(s@) is None,
{
    let n = s.unicode_len();
    if n < 3 {
        proof {
            lemma_rfind_sep_none(s@);
        }
        return None;
    }
    let mut i = n - 3 + 1;
    while i > 0
        invariant
            n == s@.len(),
            n >= 3,
            i <= n - 2,
            forall|j: int| i <= j ==> !sep_at(s@, j),
        decreases i,
    {
        let k = i - 1;
        if s.get_char(k) == ':' && s.get_char(k + 1) == '/' && s.get_char(k + 2) == '/' {
            proof {
                lemma_rfind_sep_found(s@, k as int);
            }
            return Some(k);
        }
        i = k;
    }
    proof {
        lemma_rfind_sep_none(s@);
    }
    None
}

/// Whether `s` is the word `w`.
pub fn is_word(s: &str, w: &[char]) -> (r: bool)
    ensures
        r == (s@ == w@),
{
    let n = s.unicode_len();
    if n != w.len() {
        return false;
    }
    let mut i: usize = 0;
    while i < n
        invariant
            n == s@.len(),
            n == w@.len(),
            i <= n,
            forall|j: int| 0 <= j < i ==> s@[j] == w@[j],
        decreases n - i,
    {
        if s.get_char(i) != w[i] {
            return false;
        }
        i += 1;
    }
    assert(s@ =~= w@);
    true
}

} // verus!
