//! The decisions of organizing one child folder: the paths it uses, the moves
//! its media files need, and the report of what became of them.
use vstd::prelude::*;
use crate::classify::{is_media_file, is_media_name};
use crate::path::{composable, joined, last_segment, views, PathComposer, PathError};

verus! {

/// The concealed subfolder's name: a dot before the child's name.
pub open spec fn concealed_name_of(base: Seq<char>) -> Seq<char> {
    seq!['.'] + base
}

/// The playlist file's name: the child's name with `.m3u` after it.
pub open spec fn playlist_name_of(base: Seq<char>) -> Seq<char> {
    base + seq!['.', 'm', '3', 'u']
}

/// The character views of a list of strings.
pub open spec fn string_views(v: Seq<String>) -> Seq<Seq<char>> {
    v.map_values(|s: String| s@)
}

/// The media names among `names`, in their order.
pub open spec fn media_names(names: Seq<Seq<char>>) -> Seq<Seq<char>>
    decreases names.len(),
{
    if names.len() == 0 {
        Seq::empty()
    } else if is_media_name(names.last()) {
        media_names(names.drop_last()).push(names.last())
    } else {
        media_names(names.drop_last())
    }
}

/// The names among `names` that are not media names, in their order.
pub open spec fn other_names(names: Seq<Seq<char>>) -> Seq<Seq<char>>
    decreases names.len(),
{
    if names.len() == 0 {
        Seq::empty()
    } else if is_media_name(names.last()) {
        other_names(names.drop_last())
    } else {
        other_names(names.drop_last()).push(names.last())
    }
}

proof fn lemma_other_names_not_media(names: Seq<Seq<char>>)
    ensures
        forall|i: int|
            0 <= i < other_names(names).len() ==> !is_media_name(#[trigger] other_names(names)[i]),
    decreases names.len(),
{
    if names.len() > 0 {
        let prev = other_names(names.drop_last());
        lemma_other_names_not_media(names.drop_last());
        assert forall|i: int|
            0 <= i < other_names(names).len() implies !is_media_name(
                #[trigger] other_names(names)[i],
            ) by {
            if i < prev.len() {
                assert(other_names(names)[i] == prev[i]);
            }
        }
    }
}

proof fn lemma_no_media_names(names: Seq<Seq<char>>)
    requires
        forall|i: int| 0 <= i < names.len() ==> !is_media_name(#[trigger] names[i]),
    ensures
        media_names(names).len() == 0,
    decreases names.len(),
{
    if names.len() > 0 {
        assert forall|i: int| 0 <= i < names.len() - 1 implies !is_media_name(
            #[trigger] names.drop_last()[i],
        ) by {
            assert(names.drop_last()[i] == names[i]);
        }
        assert(!is_media_name(names[names.len() - 1]));
        lemma_no_media_names(names.drop_last());
    }
}

/// Organizing a child a second time moves nothing. After a run that moved
/// every media file, the child holds its other entries, the concealed
/// subfolder and the playlist file; a second run finds no media name among
/// them, as long as the concealed subfolder's own name is not a media name.
pub proof fn lemma_second_run_moves_nothing(entries: Seq<Seq<char>>, base: Seq<char>)
    requires
        !is_media_name(concealed_name_of(base)),
    ensures
        media_names(
            other_names(entries) + seq![concealed_name_of(base), playlist_name_of(base)],
        ).len() == 0,
{
    let left = other_names(entries) + seq![concealed_name_of(base), playlist_name_of(base)];
    let p = playlist_name_of(base);
    let tail = p.subrange(p.len() - 3, p.len() as int);
    assert(tail =~= seq!['m', '3', 'u']);
    assert(tail[0] != seq!['c', 'h', 'd'][0]);
    assert(tail[0] != seq!['c', 'u', 'e'][0]);
    assert(tail[0] != seq!['b', 'i', 'n'][0]);
    assert(!is_media_name(p));
    lemma_other_names_not_media(entries);
    assert forall|i: int| 0 <= i < left.len() implies !is_media_name(#[trigger] left[i]) by {
        if i < other_names(entries).len() {
            assert(left[i] == other_names(entries)[i]);
        }
    }
    lemma_no_media_names(left);
}

/// Where everything of one child goes.
#[derive(Clone, Debug)]
pub struct ChildPlan {
    pub composer: PathComposer,
    pub root: String,
    pub child_path: String,
    pub base_name: String,
    pub concealed_name: String,
    pub concealed_path: String,
    pub playlist_path: String,
}

/// One media file's relocation and the playlist line that lists it.
#[derive(Clone, Debug)]
pub struct MoveStep {
    pub file_name: String,
    pub source: String,
    pub dest: String,
    pub line: String,
}

impl ChildPlan {
    /// The plan's paths are those that the root and the child's path give.
    pub open spec fn wf(&self) -> bool {
        let sep = self.composer.separator;
        let base = last_segment(self.child_path@, sep);
        &&& self.root@.len() > 0
        &&& base.len() > 0
        &&& self.base_name@ == base
        &&& self.concealed_name@ == concealed_name_of(base)
        &&& self.concealed_path@ == joined(seq![self.root@, base, concealed_name_of(base)], sep)
        &&& self.playlist_path@ == joined(seq![self.root@, base, playlist_name_of(base)], sep)
    }

    /// The step that moves the file `name` of this child.
    pub open spec fn step_for(&self, step: MoveStep, name: Seq<char>) -> bool {
        let sep = self.composer.separator;
        &&& step.file_name@ == name
        &&& step.source@ == joined(seq![self.child_path@, name], sep)
        &&& step.dest@ == joined(
            seq![self.root@, self.base_name@, self.concealed_name@, name],
            sep,
        )
        &&& step.line@ == joined(seq![self.concealed_name@, name], sep)
    }

    /// The plan for the child at `child_path` under `root`. Fails with
    /// `InvalidArgument` when the root is empty or the child's path ends in no
    /// name (it is empty or ends with the separator).
    pub fn new(composer: PathComposer, root: &str, child_path: &str) -> (r: Result<
        ChildPlan,
        PathError,
    >)
        ensures
            r.is_ok() <==> (root@.len() > 0 && last_segment(child_path@, composer.separator).len()
                > 0),
            r matches Ok(p) ==> p.wf() && p.composer == composer && p.root@ == root@
                && p.child_path@ == child_path@,
            r matches Err(e) ==> e == PathError::InvalidArgument,
    {
        let base = composer.base_name(child_path);
        if root.is_empty() || base.as_str().is_empty() {
            return Err(PathError::InvalidArgument);
        }
        let mut concealed = String::from_str(".");
        concealed.append(base.as_str());
        let mut playlist = base.clone();
        playlist.append(".m3u");
        proof {
            reveal_strlit(".");
            reveal_strlit(".m3u");
            assert(concealed@ =~= concealed_name_of(base@));
            assert(playlist@ =~= playlist_name_of(base@));
        }
        let dir_parts = vec![root, base.as_str(), concealed.as_str()];
        let list_parts = vec![root, base.as_str(), playlist.as_str()];
        assert(views(dir_parts@) =~= seq![root@, base@, concealed@]);
        assert(views(list_parts@) =~= seq![root@, base@, playlist@]);
        let concealed_path = composer.join(&dir_parts);
        let playlist_path = composer.join(&list_parts);
        Ok(
            ChildPlan {
                composer,
                root: String::from_str(root),
                child_path: String::from_str(child_path),
                base_name: base,
                concealed_name: concealed,
                concealed_path,
                playlist_path,
            },
        )
    }

    /// The steps for the media files among `entries`, the names found directly
    /// inside the child, in their order. Other names are passed over.
    pub fn media_moves(&self, entries: &Vec<String>) -> (r: Vec<MoveStep>)
        requires
            self.wf(),
        ensures
            r@.len() == media_names(string_views(entries@)).len(),
            forall|i: int|
                0 <= i < r@.len() ==> self.step_for(
                    #[trigger] r@[i],
                    media_names(string_views(entries@))[i],
                ),
    {
        let ghost names = string_views(entries@);
        let mut steps: Vec<MoveStep> = Vec::new();
        let mut i: usize = 0;
        while i < entries.len()
            invariant
                self.wf(),
                names == string_views(entries@),
                i <= entries.len(),
                steps@.len() == media_names(names.take(i as int)).len(),
                forall|k: int|
                    0 <= k < steps@.len() ==> self.step_for(
                        #[trigger] steps@[k],
                        media_names(names.take(i as int))[k],
                    ),
            decreases entries.len() - i,
        {
            let name = entries[i].as_str();
            proof {
                assert(names.take(i + 1).drop_last() =~= names.take(i as int));
                assert(names.take(i + 1).last() == name@);
            }
            if is_media_file(name) {
                proof {
                    assert(name@.len() > 0);
                }
                let source_parts = vec![self.child_path.as_str(), name];
                let dest_parts = vec![
                    self.root.as_str(),
                    self.base_name.as_str(),
                    self.concealed_name.as_str(),
                    name,
                ];
                let line_parts = vec![self.concealed_name.as_str(), name];
                assert(views(source_parts@) =~= seq![self.child_path@, name@]);
                assert(views(dest_parts@) =~= seq![
                    self.root@,
                    self.base_name@,
                    self.concealed_name@,
                    name@,
                ]);
                assert(views(line_parts@) =~= seq![self.concealed_name@, name@]);
                proof {
                    let s = self.child_path@;
                    let sep = self.composer.separator;
                    assert(s.len() > 0) by {
                        assert(last_segment(s, sep).len() > 0);
                    }
                }
                let step = MoveStep {
                    file_name: String::from_str(name),
                    source: self.composer.join(&source_parts),
                    dest: self.composer.join(&dest_parts),
                    line: self.composer.join(&line_parts),
                };
                steps.push(step);
            }
            i = i + 1;
        }
        proof {
            assert(names.take(i as int) =~= names);
        }
        steps
    }
}

} // verus!
