//! Character-sequence predicates used by format detection.
use vstd::prelude::*;

verus! {

/// `suffix` is a suffix of `s`.
pub open spec fn seq_ends_with(s: Seq<char>, suffix: Seq<char>) -> bool {
    suffix.len() <= s.len() && s.subrange(s.len() - suffix.len(), s.len() as int) == suffix
}

/// `sub` occurs in `s` at position `i`.
pub open spec fn occurs_at(s: Seq<char>, sub: Seq<char>, i: int) -> bool {
    0 <= i && i + sub.len() <= s.len() && s.subrange(i, i + sub.len()) == sub
}

/// `sub` occurs somewhere in `s`.
pub open spec fn seq_contains(s: Seq<char>, sub: Seq<char>) -> bool {
    exists|i: int| occurs_at(s, sub, i)
}

/// The part of a file name from its first dot on, or nothing when it has no dot.
/// `archive.tar.gz` gives `.tar.gz`; `report` gives the empty sequence.
pub open spec fn extension_chain(name: Seq<char>) -> Seq<char>
    decreases name.len(),
{
    if name.len() == 0 {
        seq![]
    } else if name[0] == '.' {
        name
    } else {
        extension_chain(name.drop_first())
    }
}

/// Whether `sub` occurs in `s` starting at character `i`.
pub fn matches_at(s: &str, sub: &str, i: usize) -> (r: bool)
    requires
        i + sub@.len() <= s@.len(),
    ensures
        r == occurs_at(s@, sub@, i as int),
{
    let n = s.unicode_len();
    let m = sub.unicode_len();
    let mut j: usize = 0;
    while j < m
        invariant
            m == sub@.len(),
            n == s@.len(),
            i + m <= n,
            j <= m,
            forall|k: int| 0 <= k < j ==> s@[i + k] == sub@[k],
        decreases m - j,
    {
        if s.get_char(i + j) != sub.get_char(j) {
            assert(s@.subrange(i as int, i + m)[j as int] != sub@[j as int]);
            return false;
        }
        j = j + 1;
    }
    assert(s@.subrange(i as int, i + m) =~= sub@);
    true
}

/// Whether `s` ends with `suffix`.
pub fn ends_with(s: &str, suffix: &str) -> (r: bool)
    ensures
        r == seq_ends_with(s@, suffix@),
{
    let n = s.unicode_len();
    let m = suffix.unicode_len();
    if m > n {
        return false;
    }
    matches_at(s, suffix, n - m)
}

/// Whether `sub` occurs anywhere in `s`.
pub fn contains(s: &str, sub: &str) -> (r: bool)
    ensures
        r == seq_contains(s@, sub@),
{
    let n = s.unicode_len();
    let m = sub.unicode_len();
    if m > n {
        assert forall|i: int| !occurs_at(s@, sub@, i) by {}
        return false;
    }
    if m == 0 {
        assert(s@.subrange(0, 0) =~= sub@);
        assert(occurs_at(s@, sub@, 0));
        return true;
    }
    let mut i: usize = 0;
    while i <= n - m
        invariant
            n == s@.len(),
            m == sub@.len(),
            1 <= m <= n,
            forall|k: int| 0 <= k < i ==> !occurs_at(s@, sub@, k),
        decreases n - m + 1 - i,
    {
        if matches_at(s, sub, i) {
            return true;
        }
        i = i + 1;
    }
    assert forall|k: int| !occurs_at(s@, sub@, k) by {
        if 0 <= k && k + m <= n {
            assert(k < i);
        }
    }
    false
}

proof fn lemma_extension_chain_skip(s: Seq<char>, i: int)
    requires
        0 <= i < s.len(),
        s[i] != '.',
    ensures
        extension_chain(s.subrange(i, s.len() as int)) == extension_chain(
            s.subrange(i + 1, s.len() as int),
        ),
{
    assert(s.subrange(i, s.len() as int).drop_first() =~= s.subrange(i + 1, s.len() as int));
}

/// The extension chain of a file name: every dot-separated part after the
/// first, each with its leading dot (`archive.tar.gz` gives `.tar.gz`).
pub fn get_file_extensions(name: &str) -> (r: String)
    ensures
        r@ == extension_chain(name@),
{
    let n = name.unicode_len();
    let mut i: usize = 0;
    assert(name@.subrange(0, n as int) =~= name@);
    while i < n && name.get_char(i) != '.'
        invariant
            n == name@.len(),
            i <= n,
            extension_chain(name@) == extension_chain(name@.subrange(i as int, n as int)),
        decreases n - i,
    {
        proof {
            lemma_extension_chain_skip(name@, i as int);
        }
        i = i + 1;
    }
    let rest = name.substring_char(i, n);
    proof {
        if i < n {
            assert(rest@[0] == '.');
        } else {
            assert(rest@.len() == 0);
        }
    }
    String::from_str(rest)
}

} // verus!
