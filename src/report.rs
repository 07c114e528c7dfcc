//! What became of one child: the files moved, the playlist lines confirmed by
//! those moves, and every error met on the way.
use vstd::prelude::*;
use crate::organize::{ChildPlan, MoveStep};

verus! {

/// An error met while organizing one child.
#[derive(Clone, Debug)]
pub enum OrganizeError {
    /// The root was gone when it was checked again; the child was still
    /// organized as far as it could be.
    RootMissing,
    /// The concealed subfolder could not be created; the child was abandoned.
    ConcealedDirFailed { path: String, cause: String },
    /// The playlist file could not be created; the child was abandoned.
    PlaylistFailed { path: String, cause: String },
    /// The child's entries could not be listed; the child was abandoned.
    ListFailed { path: String, cause: String },
    /// One media file could not be moved; the others were still tried.
    MoveFailed { source: String, dest: String, cause: String },
}

/// An `OrganizeError` with its strings as character sequences.
pub enum ErrorView {
    RootMissing,
    ConcealedDirFailed { path: Seq<char>, cause: Seq<char> },
    PlaylistFailed { path: Seq<char>, cause: Seq<char> },
    ListFailed { path: Seq<char>, cause: Seq<char> },
    MoveFailed { source: Seq<char>, dest: Seq<char>, cause: Seq<char> },
}

impl View for OrganizeError {
    type V = ErrorView;

    open spec fn view(&self) -> ErrorView {
        match self {
            OrganizeError::RootMissing => ErrorView::RootMissing,
            OrganizeError::ConcealedDirFailed { path, cause } => ErrorView::ConcealedDirFailed {
                path: path@,
                cause: cause@,
            },
            OrganizeError::PlaylistFailed { path, cause } => ErrorView::PlaylistFailed {
                path: path@,
                cause: cause@,
            },
            OrganizeError::ListFailed { path, cause } => ErrorView::ListFailed {
                path: path@,
                cause: cause@,
            },
            OrganizeError::MoveFailed { source, dest, cause } => ErrorView::MoveFailed {
                source: source@,
                dest: dest@,
                cause: cause@,
            },
        }
    }
}

/// How creating the concealed subfolder went.
#[derive(Clone, Debug)]
pub enum DirOutcome {
    Created,
    AlreadyExists,
    Failed(String),
}

/// A step that was tried, and the cause of its failure if it failed.
#[derive(Clone, Debug)]
pub struct MoveOutcome {
    pub step: MoveStep,
    pub failure: Option<String>,
}

/// The account of one child.
#[derive(Clone, Debug)]
pub struct OrganizeReport {
    pub child_name: String,
    pub moved: usize,
    pub lines: Vec<String>,
    pub errors: Vec<OrganizeError>,
}

/// The views of a list of errors.
pub open spec fn error_views(v: Seq<OrganizeError>) -> Seq<ErrorView> {
    v.map_values(|e: OrganizeError| e@)
}

/// The playlist lines of the steps that succeeded, in their order.
pub open spec fn confirmed_lines(outcomes: Seq<MoveOutcome>) -> Seq<Seq<char>>
    decreases outcomes.len(),
{
    if outcomes.len() == 0 {
        Seq::empty()
    } else if outcomes.last().failure is None {
        confirmed_lines(outcomes.drop_last()).push(outcomes.last().step.line@)
    } else {
        confirmed_lines(outcomes.drop_last())
    }
}

/// How many steps succeeded.
pub open spec fn moved_count(outcomes: Seq<MoveOutcome>) -> nat
    decreases outcomes.len(),
{
    if outcomes.len() == 0 {
        0
    } else {
        moved_count(outcomes.drop_last()) + if outcomes.last().failure is None {
            1nat
        } else {
            0nat
        }
    }
}

/// One error for each step that failed, naming its paths and cause, in order.
pub open spec fn move_errors(outcomes: Seq<MoveOutcome>) -> Seq<ErrorView>
    decreases outcomes.len(),
{
    if outcomes.len() == 0 {
        Seq::empty()
    } else {
        let o = outcomes.last();
        match o.failure {
            Some(cause) => move_errors(outcomes.drop_last()).push(
                ErrorView::MoveFailed { source: o.step.source@, dest: o.step.dest@, cause: cause@ },
            ),
            None => move_errors(outcomes.drop_last()),
        }
    }
}

/// The note that a missing root leaves, if it was missing.
pub open spec fn root_notes(root_present: bool) -> Seq<ErrorView> {
    if root_present {
        Seq::empty()
    } else {
        seq![ErrorView::RootMissing]
    }
}

/// The playlist file's text: each line followed by a newline.
pub open spec fn playlist_body(lines: Seq<Seq<char>>) -> Seq<char>
    decreases lines.len(),
{
    if lines.len() == 0 {
        Seq::empty()
    } else {
        playlist_body(lines.drop_last()) + lines.last().push('\n')
    }
}

proof fn lemma_moved_count_bound(outcomes: Seq<MoveOutcome>)
    ensures
        moved_count(outcomes) <= outcomes.len(),
    decreases outcomes.len(),
{
    if outcomes.len() > 0 {
        lemma_moved_count_bound(outcomes.drop_last());
    }
}

proof fn lemma_all_moved(outcomes: Seq<MoveOutcome>)
    requires
        forall|i: int| 0 <= i < outcomes.len() ==> (#[trigger] outcomes[i]).failure is None,
    ensures
        move_errors(outcomes).len() == 0,
        moved_count(outcomes) == outcomes.len(),
        confirmed_lines(outcomes) == outcomes.map_values(|o: MoveOutcome| o.step.line@),
    decreases outcomes.len(),
{
    if outcomes.len() > 0 {
        let rest = outcomes.drop_last();
        assert forall|i: int| 0 <= i < rest.len() implies (#[trigger] rest[i]).failure is None by {
            assert(rest[i] == outcomes[i]);
        }
        assert(outcomes[outcomes.len() - 1].failure is None);
        lemma_all_moved(rest);
        assert(confirmed_lines(outcomes) =~= outcomes.map_values(|o: MoveOutcome| o.step.line@));
    }
}

proof fn lemma_failure_recorded(outcomes: Seq<MoveOutcome>, failed: int)
    requires
        0 <= failed < outcomes.len(),
        outcomes[failed].failure is Some,
    ensures
        move_errors(outcomes).len() > 0,
    decreases outcomes.len(),
{
    if failed < outcomes.len() - 1 {
        assert(outcomes.drop_last()[failed] == outcomes[failed]);
        lemma_failure_recorded(outcomes.drop_last(), failed);
    }
}

/// A failed move counts against its own child only. Whatever child `a`'s
/// moves met, a child `b` whose root check passed and whose moves all
/// succeeded is reported without error, with every file moved and listed in
/// order; and `a`'s report holds its failure.
pub proof fn lemma_failure_stays_in_its_child(
    a: Seq<MoveOutcome>,
    a_root_present: bool,
    failed: int,
    b: Seq<MoveOutcome>,
)
    requires
        0 <= failed < a.len(),
        a[failed].failure is Some,
        forall|i: int| 0 <= i < b.len() ==> (#[trigger] b[i]).failure is None,
    ensures
        (root_notes(a_root_present) + move_errors(a)).len() > 0,
        (root_notes(true) + move_errors(b)).len() == 0,
        moved_count(b) == b.len(),
        confirmed_lines(b) == b.map_values(|o: MoveOutcome| o.step.line@),
{
    lemma_failure_recorded(a, failed);
    lemma_all_moved(b);
}

/// Whether the concealed subfolder is there to move files into. One that
/// already existed serves as well as a new one; a failure is the error that
/// abandons the child.
pub fn concealed_dir_error(plan: &ChildPlan, outcome: &DirOutcome) -> (r: Option<OrganizeError>)
    ensures
        match outcome {
            DirOutcome::Failed(cause) => r matches Some(e) && e@ == (ErrorView::ConcealedDirFailed {
                path: plan.concealed_path@,
                cause: cause@,
            }),
            _ => r is None,
        },
{
    match outcome {
        DirOutcome::Failed(cause) => Some(
            OrganizeError::ConcealedDirFailed {
                path: plan.concealed_path.clone(),
                cause: cause.clone(),
            },
        ),
        _ => None,
    }
}

/// The error that abandons the child when its playlist file cannot be created.
pub fn playlist_error(plan: &ChildPlan, cause: &str) -> (r: OrganizeError)
    ensures
        r@ == (ErrorView::PlaylistFailed { path: plan.playlist_path@, cause: cause@ }),
{
    OrganizeError::PlaylistFailed {
        path: plan.playlist_path.clone(),
        cause: String::from_str(cause),
    }
}

/// The error that abandons the child when its entries cannot be listed.
pub fn list_error(plan: &ChildPlan, cause: &str) -> (r: OrganizeError)
    ensures
        r@ == (ErrorView::ListFailed { path: plan.child_path@, cause: cause@ }),
{
    OrganizeError::ListFailed { path: plan.child_path.clone(), cause: String::from_str(cause) }
}

impl OrganizeReport {
    /// The report of a child abandoned on `error`: nothing moved, nothing
    /// listed.
    pub fn abandoned(plan: &ChildPlan, root_present: bool, error: OrganizeError) -> (r:
        OrganizeReport)
        ensures
            r.child_name@ == plan.base_name@,
            r.moved == 0,
            r.lines@.len() == 0,
            error_views(r.errors@) == root_notes(root_present).push(error@),
    {
        let mut errors: Vec<OrganizeError> = Vec::new();
        if !root_present {
            errors.push(OrganizeError::RootMissing);
        }
        errors.push(error);
        proof {
            assert(error_views(errors@) =~= root_notes(root_present).push(error@));
        }
        OrganizeReport { child_name: plan.base_name.clone(), moved: 0, lines: Vec::new(), errors }
    }

    /// The report of a child whose steps were all tried: a playlist line for
    /// each file that was moved, an error for each that was not.
    pub fn finished(plan: &ChildPlan, root_present: bool, outcomes: &Vec<MoveOutcome>) -> (r:
        OrganizeReport)
        ensures
            r.child_name@ == plan.base_name@,
            r.moved == moved_count(outcomes@),
            crate::organize::string_views(r.lines@) == confirmed_lines(outcomes@),
            error_views(r.errors@) == root_notes(root_present) + move_errors(outcomes@),
    {
        let mut errors: Vec<OrganizeError> = Vec::new();
        if !root_present {
            errors.push(OrganizeError::RootMissing);
        }
        let ghost notes = error_views(errors@);
        assert(notes =~= root_notes(root_present));
        let mut lines: Vec<String> = Vec::new();
        let mut moved: usize = 0;
        let mut i: usize = 0;
        while i < outcomes.len()
            invariant
                i <= outcomes.len(),
                moved as nat == moved_count(outcomes@.take(i as int)),
                crate::organize::string_views(lines@) == confirmed_lines(outcomes@.take(i as int)),
                error_views(errors@) == notes + move_errors(outcomes@.take(i as int)),
            decreases outcomes.len() - i,
        {
            let o = &outcomes[i];
            proof {
                assert(outcomes@.take(i + 1).drop_last() =~= outcomes@.take(i as int));
                assert(outcomes@.take(i + 1).last() == *o);
                lemma_moved_count_bound(outcomes@.take(i as int));
            }
            match &o.failure {
                None => {
                    lines.push(o.step.line.clone());
                    moved = moved + 1;
                    assert(crate::organize::string_views(lines@) =~= confirmed_lines(
                        outcomes@.take(i + 1),
                    ));
                },
                Some(cause) => {
                    let ghost prev = errors@;
                    errors.push(
                        OrganizeError::MoveFailed {
                            source: o.step.source.clone(),
                            dest: o.step.dest.clone(),
                            cause: cause.clone(),
                        },
                    );
                    let ghost added = ErrorView::MoveFailed {
                        source: o.step.source@,
                        dest: o.step.dest@,
                        cause: cause@,
                    };
                    assert(errors@.last()@ == added);
                    assert(error_views(errors@) =~= error_views(prev).push(added));
                    assert(move_errors(outcomes@.take(i + 1)) == move_errors(
                        outcomes@.take(i as int),
                    ).push(added));
                    assert(error_views(errors@) =~= notes + move_errors(outcomes@.take(i + 1)));
                },
            }
            i = i + 1;
        }
        proof {
            assert(outcomes@.take(i as int) =~= outcomes@);
        }
        OrganizeReport { child_name: plan.base_name.clone(), moved, lines, errors }
    }

    /// Whether the child went through without any error.
    pub fn is_successful(&self) -> (r: bool)
        ensures
            r == (self.errors@.len() == 0),
    {
        self.errors.len() == 0
    }

    /// The text to write to the child's playlist file: each confirmed line
    /// followed by a newline.
    pub fn playlist_text(&self) -> (r: String)
        ensures
            r@ == playlist_body(crate::organize::string_views(self.lines@)),
    {
        let ghost all = crate::organize::string_views(self.lines@);
        let mut text = String::new();
        let mut i: usize = 0;
        while i < self.lines.len()
            invariant
                all == crate::organize::string_views(self.lines@),
                i <= self.lines.len(),
                text@ == playlist_body(all.take(i as int)),
            decreases self.lines.len() - i,
        {
            text.append(self.lines[i].as_str());
            text.append("\n");
            proof {
                reveal_strlit("\n");
                assert(all.take(i + 1).drop_last() =~= all.take(i as int));
                assert(all.take(i + 1).last() == self.lines@[i as int]@);
                assert(text@ =~= playlist_body(all.take(i + 1)));
            }
            i = i + 1;
        }
        proof {
            assert(all.take(i as int) =~= all);
        }
        text
    }
}

} // verus!
