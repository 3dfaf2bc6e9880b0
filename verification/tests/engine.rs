use copykitty::{
    Comparison, ConfigError, CopyConfig, CopyOutcome, CopySummary, EntryKind, FileCopyError,
    IoErrorKind, SkipReason, SourceEntry, TargetEntry, TargetTree, WalkAction, apply_entry, copy,
    dispatch, failure_outcome, mirror_path, walk,
};

fn file(path: &[u8], mtime: i64, content: &[u8]) -> SourceEntry {
    SourceEntry {
        path: path.to_vec(),
        kind: EntryKind::File,
        mtime,
        atime: mtime,
        content: content.to_vec(),
    }
}

fn dir(path: &[u8]) -> SourceEntry {
    SourceEntry { path: path.to_vec(), kind: EntryKind::Directory, mtime: 0, atime: 0, content: Vec::new() }
}

fn symlink(path: &[u8]) -> SourceEntry {
    SourceEntry { path: path.to_vec(), kind: EntryKind::Symlink, mtime: 0, atime: 0, content: Vec::new() }
}

fn date_config() -> CopyConfig {
    CopyConfig {
        thread_count: None,
        follow_symlinks: false,
        comparison: Comparison::Date,
        preserve_metadata: true,
    }
}

#[test]
fn dispatch_sends_each_kind_where_it_belongs() {
    assert_eq!(dispatch(EntryKind::Directory, false), WalkAction::Recurse);
    assert_eq!(dispatch(EntryKind::File, false), WalkAction::CopyFile);
    assert_eq!(dispatch(EntryKind::Symlink, false), WalkAction::Ignore);
    assert_eq!(dispatch(EntryKind::Symlink, true), WalkAction::FollowLink);
}

#[test]
fn mirror_path_joins_with_separator() {
    let joined = mirror_path(&b"root2".to_vec(), &b"a".to_vec());
    assert_eq!(joined, b"root2/a".to_vec());
}

#[test]
fn scenario_small_tree_is_mirrored_and_second_run_copies_nothing() {
    let t1: i64 = 1_000;
    let source = vec![dir(b"a"), file(b"a/b.txt", t1, b"hi")];
    let mut dest = TargetTree::new();
    let config = date_config();

    let first = copy(&source, &mut dest, &config, 2_000).unwrap();
    assert_eq!(first.copied, 1);
    assert_eq!(first.skipped, 0);
    assert_eq!(first.failed, 0);

    let mirrored_dir = dest.get(&b"a".to_vec()).unwrap();
    assert_eq!(mirrored_dir.kind, EntryKind::Directory);
    let mirrored = dest.get(&b"a/b.txt".to_vec()).unwrap();
    assert_eq!(mirrored.kind, EntryKind::File);
    assert_eq!(mirrored.content, b"hi".to_vec());
    assert_eq!(mirrored.mtime, t1);

    let second = copy(&source, &mut dest, &config, 3_000).unwrap();
    assert_eq!(second.copied, 0);
    assert_eq!(second.skipped, 1);
    assert_eq!(second.failed, 0);
}

#[test]
fn strategy_exists_skips_second_run() {
    let source = vec![file(b"f", 5, b"data")];
    let mut dest = TargetTree::new();
    let config = CopyConfig { comparison: Comparison::Exists, ..date_config() };

    let first = walk(&source, &mut dest, &config, 10);
    assert_eq!(first.copied, 1);
    let second = walk(&source, &mut dest, &config, 11);
    assert_eq!(second.copied, 0);
    assert_eq!(second.skipped, 1);
}

#[test]
fn strategy_off_rewrites_every_run() {
    let source = vec![file(b"f", 5, b"data")];
    let mut dest = TargetTree::new();
    let config = CopyConfig { comparison: Comparison::Off, ..date_config() };

    let first = walk(&source, &mut dest, &config, 10);
    let second = walk(&source, &mut dest, &config, 11);
    assert_eq!(first.copied, 1);
    assert_eq!(second.copied, 1);
    assert_eq!(second.skipped, 0);
}

#[test]
fn readonly_target_with_differing_time_is_left_untouched() {
    let source = vec![file(b"f", 5, b"new")];
    let mut dest = TargetTree { entries: Vec::new() };
    dest.entries.push(TargetEntry {
        path: b"f".to_vec(),
        kind: EntryKind::File,
        mtime: 4,
        atime: 4,
        readonly: true,
        content: b"old".to_vec(),
    });
    let config = date_config();

    let summary = walk(&source, &mut dest, &config, 10);
    assert_eq!(summary.copied, 0);
    assert_eq!(summary.failed, 1);
    let target = dest.get(&b"f".to_vec()).unwrap();
    assert_eq!(target.content, b"old".to_vec());
    assert_eq!(target.mtime, 4);
    assert!(target.readonly);
}

#[test]
fn readonly_target_is_refused_again_without_copying() {
    let source = vec![file(b"f", 5, b"new")];
    let mut dest = TargetTree { entries: Vec::new() };
    dest.entries.push(TargetEntry {
        path: b"f".to_vec(),
        kind: EntryKind::File,
        mtime: 4,
        atime: 4,
        readonly: true,
        content: b"old".to_vec(),
    });
    let config = date_config();

    walk(&source, &mut dest, &config, 10);
    let second = walk(&source, &mut dest, &config, 11);
    assert_eq!(second.copied, 0);
    assert_eq!(second.failed, 1);
    assert_eq!(dest.get(&b"f".to_vec()).unwrap().content, b"old".to_vec());
}

#[test]
fn metadata_is_preserved_on_copy() {
    let mut entry = file(b"f", 5, b"data");
    entry.atime = 6;
    let source = vec![entry];
    let mut dest = TargetTree::new();
    let config = date_config();

    walk(&source, &mut dest, &config, 10);
    let target = dest.get(&b"f".to_vec()).unwrap();
    assert_eq!(target.mtime, 5);
    assert_eq!(target.atime, 6);
}

#[test]
fn without_preservation_the_write_time_is_used() {
    let source = vec![file(b"f", 5, b"data")];
    let mut dest = TargetTree::new();
    let config = CopyConfig { preserve_metadata: false, ..date_config() };

    walk(&source, &mut dest, &config, 10);
    let target = dest.get(&b"f".to_vec()).unwrap();
    assert_eq!(target.mtime, 10);
    assert_eq!(target.atime, 10);
}

#[test]
fn unfollowed_symlink_leaves_no_entry() {
    let source = vec![symlink(b"link"), file(b"f", 1, b"x")];
    let mut dest = TargetTree::new();
    let config = date_config();

    let summary = walk(&source, &mut dest, &config, 10);
    assert_eq!(summary.copied, 1);
    assert!(dest.get(&b"link".to_vec()).is_none());
    assert_eq!(dest.entries.len(), 1);
}

#[test]
fn directory_creation_is_idempotent() {
    let source = vec![dir(b"a"), dir(b"a")];
    let mut dest = TargetTree::new();
    let config = date_config();

    walk(&source, &mut dest, &config, 10);
    assert_eq!(dest.entries.len(), 1);
    assert_eq!(dest.get(&b"a".to_vec()).unwrap().kind, EntryKind::Directory);
}

#[test]
fn apply_entry_reports_the_file_outcome() {
    let mut dest = TargetTree::new();
    let config = date_config();
    let outcome = apply_entry(&mut dest, &file(b"f", 1, b"x"), &config, 10);
    assert_eq!(outcome, Some(CopyOutcome::Copied));
    let again = apply_entry(&mut dest, &file(b"f", 1, b"x"), &config, 11);
    assert_eq!(again, Some(CopyOutcome::Skipped(SkipReason::UpToDate)));
    let none = apply_entry(&mut dest, &dir(b"d"), &config, 12);
    assert_eq!(none, None);
}

#[test]
fn zero_workers_are_refused_before_any_work() {
    let source = vec![file(b"f", 1, b"x")];
    let mut dest = TargetTree::new();
    let config = CopyConfig { thread_count: Some(0), ..date_config() };

    let result = copy(&source, &mut dest, &config, 10);
    assert_eq!(result, Err(ConfigError::InvalidThreadCount));
    assert_eq!(dest.entries.len(), 0);

    let one = CopyConfig { thread_count: Some(1), ..date_config() };
    assert!(copy(&source, &mut dest, &one, 10).is_ok());
}

#[test]
fn failure_outcomes_carry_their_kind() {
    assert_eq!(
        failure_outcome(IoErrorKind::PermissionDenied),
        CopyOutcome::Failed(FileCopyError::PermissionDenied)
    );
    assert_eq!(
        failure_outcome(IoErrorKind::AlreadyExists),
        CopyOutcome::Failed(FileCopyError::AlreadyExists)
    );
    assert_eq!(failure_outcome(IoErrorKind::Other), CopyOutcome::Failed(FileCopyError::Other));
}

#[test]
fn summary_counts_each_outcome_once() {
    let mut summary = CopySummary::new();
    summary.record(CopyOutcome::Copied);
    summary.record(CopyOutcome::Copied);
    summary.record(CopyOutcome::Skipped(SkipReason::DestinationExists));
    summary.record(CopyOutcome::Failed(FileCopyError::Other));
    assert_eq!(summary.copied, 2);
    assert_eq!(summary.skipped, 1);
    assert_eq!(summary.failed, 1);
    assert_eq!(summary.total(), 4);
}
