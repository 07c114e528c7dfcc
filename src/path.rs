//! Composing path strings from segments, and taking the last segment of one.
use vstd::prelude::*;

verus! {

/// The separator of Windows-family hosts.
pub const WINDOWS_SEPARATOR: char = '\\';

/// The separator of every other host.
pub const UNIX_SEPARATOR: char = '/';

/// The character views of a list of string segments.
pub open spec fn views(parts: Seq<&str>) -> Seq<Seq<char>> {
    parts.map_values(|p: &str| p@)
}

/// A list that can be composed: at least one segment, none of them empty.
pub open spec fn composable(segs: Seq<Seq<char>>) -> bool {
    &&& segs.len() > 0
    &&& forall|i: int| 0 <= i < segs.len() ==> (#[trigger] segs[i]).len() > 0
}

/// The segments joined by `sep`, with a separator between each two of them and
/// none at either end.
pub open spec fn joined(segs: Seq<Seq<char>>, sep: char) -> Seq<char>
    decreases segs.len(),
{
    if segs.len() == 0 {
        Seq::empty()
    } else if segs.len() == 1 {
        segs[0]
    } else {
        joined(segs.drop_last(), sep).push(sep) + segs.last()
    }
}

/// How many times `c` occurs in `s`.
pub open spec fn count_char(s: Seq<char>, c: char) -> nat
    decreases s.len(),
{
    if s.len() == 0 {
        0
    } else {
        count_char(s.drop_last(), c) + if s.last() == c {
            1nat
        } else {
            0nat
        }
    }
}

/// Where the last segment of `s` begins: just after its last separator, or at
/// its start if it has none.
pub open spec fn segment_start(s: Seq<char>, sep: char) -> int
    decreases s.len(),
{
    if s.len() == 0 {
        0
    } else if s.last() == sep {
        s.len() as int
    } else {
        segment_start(s.drop_last(), sep)
    }
}

/// The part of `s` after its last separator (all of `s` if it has none).
pub open spec fn last_segment(s: Seq<char>, sep: char) -> Seq<char> {
    s.subrange(segment_start(s, sep), s.len() as int)
}

/// Composes paths with one fixed separator character.
#[derive(Clone, Copy, Debug, PartialEq, Eq, Structural)]
pub struct PathComposer {
    pub separator: char,
}

/// Why a path could not be composed.
#[derive(Clone, Copy, Debug, PartialEq, Eq, Structural)]
pub enum PathError {
    /// No segments were given, or one of them was empty.
    InvalidArgument,
}

/// Relies on String::push: the character is appended at the end.
#[verifier::external_body]
fn push_char(s: &mut String, c: char)
    ensures
        final(s)@ == old(s)@.push(c),
{
    s.push(c)
}

proof fn lemma_segment_start_bounds(s: Seq<char>, sep: char)
    ensures
        0 <= segment_start(s, sep) <= s.len(),
        segment_start(s, sep) > 0 ==> s[segment_start(s, sep) - 1] == sep,
        forall|k: int|
            segment_start(s, sep) <= k < s.len() ==> #[trigger] s[k] != sep,
    decreases s.len(),
{
    if s.len() > 0 && s.last() != sep {
        lemma_segment_start_bounds(s.drop_last(), sep);
        assert forall|k: int| segment_start(s, sep) <= k < s.len() implies s[k] != sep by {
            if k < s.len() - 1 {
                assert(s.drop_last()[k] == s[k]);
            }
        }
    }
}

proof fn lemma_count_concat(x: Seq<char>, y: Seq<char>, c: char)
    ensures
        count_char(x + y, c) == count_char(x, c) + count_char(y, c),
    decreases y.len(),
{
    if y.len() == 0 {
        assert(x + y =~= x);
    } else {
        assert((x + y).drop_last() =~= x + y.drop_last());
        lemma_count_concat(x, y.drop_last(), c);
    }
}

proof fn lemma_count_absent(s: Seq<char>, c: char)
    requires
        forall|i: int| 0 <= i < s.len() ==> s[i] != c,
    ensures
        count_char(s, c) == 0,
    decreases s.len(),
{
    if s.len() > 0 {
        assert forall|i: int| 0 <= i < s.len() - 1 implies s.drop_last()[i] != c by {
            assert(s.drop_last()[i] == s[i]);
        }
        lemma_count_absent(s.drop_last(), c);
    }
}

/// Composing two segments, neither empty nor holding the separator, succeeds and
/// gives a path with exactly one separator and no separator at its end.
pub proof fn lemma_two_segments_one_separator(child: Seq<char>, file: Seq<char>, sep: char)
    requires
        child.len() > 0,
        file.len() > 0,
        forall|i: int| 0 <= i < child.len() ==> child[i] != sep,
        forall|i: int| 0 <= i < file.len() ==> file[i] != sep,
    ensures
        composable(seq![child, file]),
        count_char(joined(seq![child, file], sep), sep) == 1,
        joined(seq![child, file], sep).last() != sep,
{
    let segs = seq![child, file];
    assert(segs.drop_last() =~= seq![child]);
    assert(seq![child].len() == 1 && seq![child][0] == child);
    assert(joined(seq![child], sep) == child);
    assert(segs.len() == 2 && segs.last() == file);
    assert(joined(segs, sep) == child.push(sep) + file);
    assert(child.push(sep).drop_last() =~= child);
    lemma_count_absent(child, sep);
    lemma_count_absent(file, sep);
    lemma_count_concat(child.push(sep), file, sep);
    assert(joined(segs, sep).last() == file.last());
}

impl PathComposer {
    /// A composer that joins segments with `separator`.
    pub fn new(separator: char) -> (r: PathComposer)
        ensures
            r.separator == separator,
    {
        PathComposer { separator }
    }

    /// Joins nonempty segments; the caller has checked them.
    pub(crate) fn join(&self, parts: &Vec<&str>) -> (r: String)
        requires
            composable(views(parts@)),
        ensures
            r@ == joined(views(parts@), self.separator),
    {
        let ghost segs = views(parts@);
        let mut ret = String::new();
        let mut i: usize = 0;
        while i < parts.len()
            invariant
                segs == views(parts@),
                i <= parts.len(),
                ret@ == joined(segs.take(i as int), self.separator),
            decreases parts.len() - i,
        {
            if i > 0 {
                push_char(&mut ret, self.separator);
            }
            ret.append(parts[i]);
            proof {
                assert(segs.take(i + 1).drop_last() =~= segs.take(i as int));
                assert(segs.take(i + 1).last() == parts@[i as int]@);
            }
            i = i + 1;
        }
        proof {
            assert(segs.take(i as int) =~= segs);
        }
        ret
    }

    /// Joins the segments in order with the separator, never adding one at the
    /// end. Fails with `InvalidArgument` when there are no segments or one is
    /// empty.
    pub fn compose(&self, parts: &Vec<&str>) -> (r: Result<String, PathError>)
        ensures
            r.is_ok() <==> composable(views(parts@)),
            r matches Ok(p) ==> p@ == joined(views(parts@), self.separator),
            r matches Err(e) ==> e == PathError::InvalidArgument,
    {
        if parts.len() == 0 {
            return Err(PathError::InvalidArgument);
        }
        let mut i: usize = 0;
        while i < parts.len()
            invariant
                i <= parts.len(),
                forall|j: int| 0 <= j < i ==> (#[trigger] views(parts@)[j]).len() > 0,
            decreases parts.len() - i,
        {
            if parts[i].is_empty() {
                assert(views(parts@)[i as int].len() == 0);
                return Err(PathError::InvalidArgument);
            }
            i = i + 1;
        }
        Ok(self.join(parts))
    }

    /// The last segment of `path`: what follows its last separator, or the
    /// whole of it where it has none.
    pub fn base_name(&self, path: &str) -> (r: String)
        ensures
            r@ == last_segment(path@, self.separator),
    {
        let n = path.unicode_len();
        let mut start: usize = 0;
        let mut i: usize = 0;
        while i < n
            invariant
                n == path@.len(),
                i <= n,
                start as int == segment_start(path@.take(i as int), self.separator),
            decreases n - i,
        {
            proof {
                assert(path@.take(i + 1).drop_last() =~= path@.take(i as int));
            }
            if path.get_char(i) == self.separator {
                start = i + 1;
            }
            i = i + 1;
        }
        proof {
            assert(path@.take(n as int) =~= path@);
            lemma_segment_start_bounds(path@, self.separator);
        }
        String::from_str(path.substring_char(start, n))
    }
}

} // verus!
