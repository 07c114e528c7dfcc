//! Choosing, among the root's entries, the child folders to organize.
use vstd::prelude::*;

verus! {

/// One entry found directly inside the root.
#[derive(Clone, Debug)]
pub struct RootEntry {
    pub path: String,
    pub is_dir: bool,
}

/// Why a walk could not start.
#[derive(Clone, Copy, Debug, PartialEq, Eq, Structural)]
pub enum WalkError {
    /// The root did not exist when the walk began; nothing was touched.
    RootNotFound,
}

/// The paths of the entries that are directories, in their order.
pub open spec fn dir_paths(entries: Seq<RootEntry>) -> Seq<Seq<char>>
    decreases entries.len(),
{
    if entries.len() == 0 {
        Seq::empty()
    } else if entries.last().is_dir {
        dir_paths(entries.drop_last()).push(entries.last().path@)
    } else {
        dir_paths(entries.drop_last())
    }
}

/// The paths of the entries that are not directories, in their order.
pub open spec fn other_paths(entries: Seq<RootEntry>) -> Seq<Seq<char>>
    decreases entries.len(),
{
    if entries.len() == 0 {
        Seq::empty()
    } else if entries.last().is_dir {
        other_paths(entries.drop_last())
    } else {
        other_paths(entries.drop_last()).push(entries.last().path@)
    }
}

/// The children to organize, one after another, and the entries passed over
/// because they are not directories.
#[derive(Clone, Debug)]
pub struct WalkPlan {
    pub children: Vec<String>,
    pub skipped: Vec<String>,
}

impl WalkPlan {
    /// The walk over the root's entries. Fails with `RootNotFound` when the
    /// root does not exist; otherwise every directory is a child, in order,
    /// and every other entry is skipped.
    pub fn new(root_exists: bool, entries: &Vec<RootEntry>) -> (r: Result<WalkPlan, WalkError>)
        ensures
            r.is_ok() <==> root_exists,
            r matches Ok(w) ==> crate::organize::string_views(w.children@) == dir_paths(entries@)
                && crate::organize::string_views(w.skipped@) == other_paths(entries@),
            r matches Err(e) ==> e == WalkError::RootNotFound,
    {
        if !root_exists {
            return Err(WalkError::RootNotFound);
        }
        let mut children: Vec<String> = Vec::new();
        let mut skipped: Vec<String> = Vec::new();
        let mut i: usize = 0;
        while i < entries.len()
            invariant
                i <= entries.len(),
                crate::organize::string_views(children@) == dir_paths(entries@.take(i as int)),
                crate::organize::string_views(skipped@) == other_paths(entries@.take(i as int)),
            decreases entries.len() - i,
        {
            let e = &entries[i];
            proof {
                assert(entries@.take(i + 1).drop_last() =~= entries@.take(i as int));
                assert(entries@.take(i + 1).last() == *e);
            }
            if e.is_dir {
                children.push(e.path.clone());
            } else {
                skipped.push(e.path.clone());
            }
            assert(crate::organize::string_views(children@) =~= dir_paths(entries@.take(i + 1)));
            assert(crate::organize::string_views(skipped@) =~= other_paths(entries@.take(i + 1)));
            i = i + 1;
        }
        proof {
            assert(entries@.take(i as int) =~= entries@);
        }
        Ok(WalkPlan { children, skipped })
    }
}

} // verus!
