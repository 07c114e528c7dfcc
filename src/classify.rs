//! Deciding which file names are media files.
use vstd::prelude::*;

verus! {

/// `s` ends with `suffix`, as a literal trailing substring.
pub open spec fn has_suffix(s: Seq<char>, suffix: Seq<char>) -> bool {
    suffix.len() <= s.len() && s.subrange(s.len() - suffix.len(), s.len() as int) == suffix
}

/// A media file's name ends in `chd`, `cue` or `bin`. No dot is required before
/// the suffix: `foobin` counts as well as `game.bin`.
pub open spec fn is_media_name(s: Seq<char>) -> bool {
    ||| has_suffix(s, seq!['c', 'h', 'd'])
    ||| has_suffix(s, seq!['c', 'u', 'e'])
    ||| has_suffix(s, seq!['b', 'i', 'n'])
}

/// Whether `s` ends with `suffix`, compared character by character.
pub fn ends_with(s: &str, suffix: &str) -> (r: bool)
    ensures
        r == has_suffix(s@, suffix@),
{
    let n = s.unicode_len();
    let m = suffix.unicode_len();
    if m > n {
        return false;
    }
    let ghost tail = s@.subrange(n - m, n as int);
    let mut i: usize = 0;
    while i < m
        invariant
            n == s@.len(),
            m == suffix@.len(),
            m <= n,
            i <= m,
            tail == s@.subrange(n - m, n as int),
            forall|j: int| 0 <= j < i ==> tail[j] == suffix@[j],
        decreases m - i,
    {
        if s.get_char(n - m + i) != suffix.get_char(i) {
            assert(tail[i as int] != suffix@[i as int]);
            return false;
        }
        i = i + 1;
    }
    assert(tail =~= suffix@);
    true
}

/// Whether a file of this name is a media file, to be moved and listed.
pub fn is_media_file(name: &str) -> (r: bool)
    ensures
        r == is_media_name(name@),
{
    proof {
        reveal_strlit("chd");
        reveal_strlit("cue");
        reveal_strlit("bin");
        assert("chd"@ =~= seq!['c', 'h', 'd']);
        assert("cue"@ =~= seq!['c', 'u', 'e']);
        assert("bin"@ =~= seq!['b', 'i', 'n']);
    }
    ends_with(name, "chd") || ends_with(name, "cue") || ends_with(name, "bin")
}

} // verus!
