use m3u_organizer::classify::{ends_with, is_media_file};
use m3u_organizer::organize::{ChildPlan, MoveStep};
use m3u_organizer::path::{PathComposer, PathError, UNIX_SEPARATOR, WINDOWS_SEPARATOR};
use m3u_organizer::report::{
    concealed_dir_error, playlist_error, DirOutcome, MoveOutcome, OrganizeError, OrganizeReport,
};
use m3u_organizer::walk::{RootEntry, WalkError, WalkPlan};

fn unix() -> PathComposer {
    PathComposer::new(UNIX_SEPARATOR)
}

fn names(v: &[&str]) -> Vec<String> {
    v.iter().map(|s| s.to_string()).collect()
}

fn all_moved(steps: Vec<MoveStep>) -> Vec<MoveOutcome> {
    steps.into_iter().map(|step| MoveOutcome { step, failure: None }).collect()
}

#[test]
fn compose_two_segments_has_one_separator() {
    let p = unix().compose(&vec!["GameX", "GameX.cue"]).unwrap();
    assert_eq!(p, "GameX/GameX.cue");
    assert_eq!(p.matches('/').count(), 1);
    assert!(!p.ends_with('/'));
}

#[test]
fn compose_uses_the_given_separator() {
    let p = PathComposer::new(WINDOWS_SEPARATOR).compose(&vec!["C:", "roms", "GameX"]).unwrap();
    assert_eq!(p, "C:\\roms\\GameX");
}

#[test]
fn compose_single_segment_is_unchanged() {
    assert_eq!(unix().compose(&vec!["roms"]).unwrap(), "roms");
}

#[test]
fn compose_does_not_normalize() {
    let p = unix().compose(&vec!["/roms", "..", "GameX"]).unwrap();
    assert_eq!(p, "/roms/../GameX");
}

#[test]
fn compose_rejects_no_segments() {
    let parts: Vec<&str> = Vec::new();
    assert_eq!(unix().compose(&parts), Err(PathError::InvalidArgument));
}

#[test]
fn compose_rejects_an_empty_segment() {
    assert_eq!(unix().compose(&vec!["roms", ""]), Err(PathError::InvalidArgument));
    assert_eq!(unix().compose(&vec!["", "GameX"]), Err(PathError::InvalidArgument));
}

#[test]
fn base_name_takes_the_last_segment() {
    assert_eq!(unix().base_name("/roms/GameX"), "GameX");
    assert_eq!(unix().base_name("GameX"), "GameX");
    assert_eq!(unix().base_name("/roms/"), "");
    assert_eq!(unix().base_name(""), "");
    assert_eq!(PathComposer::new(WINDOWS_SEPARATOR).base_name("C:\\roms\\GameY"), "GameY");
}

#[test]
fn media_files_are_recognized() {
    assert!(is_media_file("game.chd"));
    assert!(is_media_file("disc1.cue"));
    assert!(is_media_file("track01.bin"));
    assert!(!is_media_file("readme.txt"));
    assert!(!is_media_file("cover.jpg"));
}

#[test]
fn media_match_is_a_plain_suffix() {
    assert!(is_media_file("foobin"));
    assert!(is_media_file("chd"));
    assert!(!is_media_file("ch"));
    assert!(!is_media_file(""));
    assert!(!is_media_file("game.BIN"));
    assert!(!is_media_file("game.m3u"));
}

#[test]
fn ends_with_compares_the_tail() {
    assert!(ends_with("abc", "bc"));
    assert!(ends_with("abc", ""));
    assert!(!ends_with("bc", "abc"));
    assert!(!ends_with("abd", "bc"));
}

#[test]
fn plan_names_the_child_paths() {
    let plan = ChildPlan::new(unix(), "/roms", "/roms/GameX").unwrap();
    assert_eq!(plan.base_name, "GameX");
    assert_eq!(plan.concealed_name, ".GameX");
    assert_eq!(plan.concealed_path, "/roms/GameX/.GameX");
    assert_eq!(plan.playlist_path, "/roms/GameX/GameX.m3u");
}

#[test]
fn plan_rejects_empty_root_or_name() {
    assert_eq!(ChildPlan::new(unix(), "", "/roms/GameX").unwrap_err(), PathError::InvalidArgument);
    assert_eq!(ChildPlan::new(unix(), "/roms", "/roms/").unwrap_err(), PathError::InvalidArgument);
}

#[test]
fn one_child_end_to_end() {
    let plan = ChildPlan::new(unix(), "/roms", "/roms/GameX").unwrap();
    let steps = plan.media_moves(&names(&["GameX.cue", "GameX.bin", "cover.jpg"]));
    assert_eq!(steps.len(), 2);
    assert_eq!(steps[0].file_name, "GameX.cue");
    assert_eq!(steps[0].source, "/roms/GameX/GameX.cue");
    assert_eq!(steps[0].dest, "/roms/GameX/.GameX/GameX.cue");
    assert_eq!(steps[1].dest, "/roms/GameX/.GameX/GameX.bin");
    let report = OrganizeReport::finished(&plan, true, &all_moved(steps));
    assert_eq!(report.child_name, "GameX");
    assert_eq!(report.moved, 2);
    assert_eq!(report.lines, vec![".GameX/GameX.cue", ".GameX/GameX.bin"]);
    assert!(report.is_successful());
    assert_eq!(report.playlist_text(), ".GameX/GameX.cue\n.GameX/GameX.bin\n");
}

#[test]
fn playlist_lines_use_the_windows_separator() {
    let plan = ChildPlan::new(PathComposer::new(WINDOWS_SEPARATOR), "D:\\roms", "D:\\roms\\GameX")
        .unwrap();
    let steps = plan.media_moves(&names(&["GameX.chd"]));
    assert_eq!(steps[0].line, ".GameX\\GameX.chd");
    assert_eq!(steps[0].dest, "D:\\roms\\GameX\\.GameX\\GameX.chd");
}

#[test]
fn second_run_moves_nothing() {
    let plan = ChildPlan::new(unix(), "/roms", "/roms/GameX").unwrap();
    let first = plan.media_moves(&names(&["GameX.cue", "GameX.bin", "cover.jpg"]));
    assert_eq!(first.len(), 2);
    let second = plan.media_moves(&names(&["cover.jpg", ".GameX", "GameX.m3u"]));
    assert!(second.is_empty());
    let again = ChildPlan::new(unix(), "/roms", "/roms/GameX").unwrap();
    assert_eq!(again.concealed_path, plan.concealed_path);
    assert_eq!(again.playlist_path, plan.playlist_path);
}

#[test]
fn failed_move_stays_in_its_child() {
    let plan_a = ChildPlan::new(unix(), "/roms", "/roms/GameA").unwrap();
    let plan_b = ChildPlan::new(unix(), "/roms", "/roms/GameB").unwrap();
    let steps_a = plan_a.media_moves(&names(&["a1.cue", "a1.bin"]));
    let mut outcomes_a = all_moved(steps_a);
    outcomes_a[0].failure = Some("permission denied".to_string());
    let report_a = OrganizeReport::finished(&plan_a, true, &outcomes_a);
    let steps_b = plan_b.media_moves(&names(&["b1.chd"]));
    let report_b = OrganizeReport::finished(&plan_b, true, &all_moved(steps_b));

    assert!(!report_a.is_successful());
    assert_eq!(report_a.moved, 1);
    assert_eq!(report_a.lines, vec![".GameA/a1.bin"]);
    match &report_a.errors[0] {
        OrganizeError::MoveFailed { source, dest, cause } => {
            assert_eq!(source, "/roms/GameA/a1.cue");
            assert_eq!(dest, "/roms/GameA/.GameA/a1.cue");
            assert_eq!(cause, "permission denied");
        }
        other => panic!("unexpected error {:?}", other),
    }
    assert!(report_b.is_successful());
    assert_eq!(report_b.moved, 1);
    assert_eq!(report_b.playlist_text(), ".GameB/b1.chd\n");
}

#[test]
fn missing_root_midway_is_noted_and_work_goes_on() {
    let plan = ChildPlan::new(unix(), "/roms", "/roms/GameX").unwrap();
    let steps = plan.media_moves(&names(&["GameX.chd"]));
    let report = OrganizeReport::finished(&plan, false, &all_moved(steps));
    assert_eq!(report.moved, 1);
    assert_eq!(report.errors.len(), 1);
    assert!(matches!(report.errors[0], OrganizeError::RootMissing));
}

#[test]
fn existing_concealed_dir_is_fine() {
    let plan = ChildPlan::new(unix(), "/roms", "/roms/GameX").unwrap();
    assert!(concealed_dir_error(&plan, &DirOutcome::Created).is_none());
    assert!(concealed_dir_error(&plan, &DirOutcome::AlreadyExists).is_none());
}

#[test]
fn concealed_dir_failure_abandons_the_child() {
    let plan = ChildPlan::new(unix(), "/roms", "/roms/GameX").unwrap();
    let err = concealed_dir_error(&plan, &DirOutcome::Failed("read-only".to_string())).unwrap();
    match &err {
        OrganizeError::ConcealedDirFailed { path, cause } => {
            assert_eq!(path, "/roms/GameX/.GameX");
            assert_eq!(cause, "read-only");
        }
        other => panic!("unexpected error {:?}", other),
    }
    let report = OrganizeReport::abandoned(&plan, true, err);
    assert_eq!(report.moved, 0);
    assert!(report.lines.is_empty());
    assert_eq!(report.errors.len(), 1);
    assert_eq!(report.playlist_text(), "");
}

#[test]
fn playlist_failure_abandons_the_child() {
    let plan = ChildPlan::new(unix(), "/roms", "/roms/GameX").unwrap();
    let err = playlist_error(&plan, "disk full");
    match &err {
        OrganizeError::PlaylistFailed { path, cause } => {
            assert_eq!(path, "/roms/GameX/GameX.m3u");
            assert_eq!(cause, "disk full");
        }
        other => panic!("unexpected error {:?}", other),
    }
    let report = OrganizeReport::abandoned(&plan, false, err);
    assert_eq!(report.errors.len(), 2);
    assert!(matches!(report.errors[0], OrganizeError::RootMissing));
    assert!(!report.is_successful());
}

#[test]
fn empty_root_gives_empty_walk() {
    let plan = WalkPlan::new(true, &Vec::new()).unwrap();
    assert!(plan.children.is_empty());
    assert!(plan.skipped.is_empty());
}

#[test]
fn missing_root_fails_the_walk() {
    let entries = vec![RootEntry { path: "/roms/GameX".to_string(), is_dir: true }];
    assert_eq!(WalkPlan::new(false, &entries).unwrap_err(), WalkError::RootNotFound);
}

#[test]
fn walk_skips_non_directories() {
    let entries = vec![
        RootEntry { path: "/roms/GameX".to_string(), is_dir: true },
        RootEntry { path: "/roms/notes.txt".to_string(), is_dir: false },
        RootEntry { path: "/roms/GameY".to_string(), is_dir: true },
    ];
    let plan = WalkPlan::new(true, &entries).unwrap();
    assert_eq!(plan.children, vec!["/roms/GameX", "/roms/GameY"]);
    assert_eq!(plan.skipped, vec!["/roms/notes.txt"]);
}

#[test]
fn no_moves_give_empty_playlist() {
    let plan = ChildPlan::new(unix(), "/roms", "/roms/Empty").unwrap();
    let steps = plan.media_moves(&names(&["readme.txt"]));
    assert!(steps.is_empty());
    let report = OrganizeReport::finished(&plan, true, &Vec::new());
    assert!(report.is_successful());
    assert_eq!(report.playlist_text(), "");
}
