//! The properties a run of the engine guarantees, stated and proved over
//! the abstract trees: what a walk leaves behind, what it never touches,
//! and what a second run over the same tree does.

use vstd::prelude::*;
use crate::config::CopyConfig;
use crate::engine::{
    EntryKind, SourceModel, TargetModel, copied_count, created_directory, dest_after_entry,
    dest_after_walk, entry_decision, entry_outcome, failed_count, lemma_lookup_upsert_other,
    lemma_lookup_upsert_same, lookup, skipped_count, written_target,
};
use crate::outcome::{CopyOutcome, FileCopyError};
use crate::policy::{Comparison, Decision};

verus! {

/// A source enumeration with no two entries at the same path, as the
/// enumeration of a real directory tree is.
pub open spec fn distinct_paths(s: Seq<SourceModel>) -> bool {
    forall|i: int, j: int| 0 <= i < j < s.len() ==> s[i].path != s[j].path
}

/// How many regular files the enumeration holds.
pub open spec fn file_count(s: Seq<SourceModel>) -> nat
    decreases s.len(),
{
    if s.len() == 0 {
        0
    } else {
        file_count(s.drop_last()) + if s.last().kind == EntryKind::File {
            1nat
        } else {
            0nat
        }
    }
}

/// One entry's task writes at most its own path, and a symlink's task
/// writes nothing.
pub proof fn lemma_entry_frame(
    d: Seq<TargetModel>,
    e: SourceModel,
    cfg: CopyConfig,
    now: i64,
    p: Seq<u8>,
)
    requires
        e.path != p || e.kind == EntryKind::Symlink,
    ensures
        lookup(dest_after_entry(d, e, cfg, now), p) == lookup(d, p),
{
    match e.kind {
        EntryKind::File => {
            match entry_decision(d, e, cfg) {
                Decision::Overwrite => {
                    lemma_lookup_upsert_other(d, written_target(e, cfg, now), p);
                },
                Decision::Skip => {},
                Decision::Abort => {},
            }
        },
        EntryKind::Directory => {
            if lookup(d, e.path) is None {
                lemma_lookup_upsert_other(d, created_directory(e, now), p);
            }
        },
        EntryKind::Symlink => {},
    }
}

/// A path present in the destination stays present through any entry's task.
pub proof fn lemma_entry_preserves_presence(
    d: Seq<TargetModel>,
    e: SourceModel,
    cfg: CopyConfig,
    now: i64,
    p: Seq<u8>,
)
    requires
        lookup(d, p) is Some,
    ensures
        lookup(dest_after_entry(d, e, cfg, now), p) is Some,
{
    match e.kind {
        EntryKind::File => {
            match entry_decision(d, e, cfg) {
                Decision::Overwrite => {
                    let t = written_target(e, cfg, now);
                    if p == t.path {
                        lemma_lookup_upsert_same(d, t);
                    } else {
                        lemma_lookup_upsert_other(d, t, p);
                    }
                },
                Decision::Skip => {},
                Decision::Abort => {},
            }
        },
        EntryKind::Directory => {
            if lookup(d, e.path) is None {
                let t = created_directory(e, now);
                if p == t.path {
                    lemma_lookup_upsert_same(d, t);
                } else {
                    lemma_lookup_upsert_other(d, t, p);
                }
            }
        },
        EntryKind::Symlink => {},
    }
}

/// A walk changes no path that none of its file or directory entries bears.
/// In particular a source tree of nothing but unfollowed symlinks leaves
/// the destination exactly as it was.
pub proof fn lemma_untouched_paths(
    s: Seq<SourceModel>,
    d: Seq<TargetModel>,
    cfg: CopyConfig,
    now: i64,
    p: Seq<u8>,
)
    requires
        forall|i: int|
            0 <= i < s.len() ==> (s[i].kind == EntryKind::Symlink || s[i].path != p),
    ensures
        lookup(dest_after_walk(s, d, cfg, now), p) == lookup(d, p),
    decreases s.len(),
{
    if s.len() > 0 {
        lemma_untouched_paths(s.drop_last(), d, cfg, now, p);
        lemma_entry_frame(dest_after_walk(s.drop_last(), d, cfg, now), s.last(), cfg, now, p);
    }
}

/// A path present before a walk is still present after it.
pub proof fn lemma_walk_preserves_presence(
    s: Seq<SourceModel>,
    d: Seq<TargetModel>,
    cfg: CopyConfig,
    now: i64,
    p: Seq<u8>,
)
    requires
        lookup(d, p) is Some,
    ensures
        lookup(dest_after_walk(s, d, cfg, now), p) is Some,
    decreases s.len(),
{
    if s.len() > 0 {
        lemma_walk_preserves_presence(s.drop_last(), d, cfg, now, p);
        lemma_entry_preserves_presence(
            dest_after_walk(s.drop_last(), d, cfg, now),
            s.last(),
            cfg,
            now,
            p,
        );
    }
}

/// Completeness: after a walk, every regular file and directory of the
/// source tree has an entry at its mirrored relative path.
pub proof fn lemma_every_entry_mirrored(
    s: Seq<SourceModel>,
    d: Seq<TargetModel>,
    cfg: CopyConfig,
    now: i64,
    i: int,
)
    requires
        0 <= i < s.len(),
        s[i].kind == EntryKind::File || s[i].kind == EntryKind::Directory,
    ensures
        lookup(dest_after_walk(s, d, cfg, now), s[i].path) is Some,
    decreases s.len(),
{
    let d1 = dest_after_walk(s.drop_last(), d, cfg, now);
    if i < s.len() - 1 {
        lemma_every_entry_mirrored(s.drop_last(), d, cfg, now, i);
        lemma_entry_preserves_presence(d1, s.last(), cfg, now, s[i].path);
    } else {
        let e = s.last();
        match e.kind {
            EntryKind::File => {
                match entry_decision(d1, e, cfg) {
                    Decision::Overwrite => {
                        lemma_lookup_upsert_same(d1, written_target(e, cfg, now));
                    },
                    Decision::Skip => {
                        assert(lookup(d1, e.path) is Some);
                    },
                    Decision::Abort => {
                        assert(lookup(d1, e.path) is Some);
                    },
                }
            },
            EntryKind::Directory => {
                if lookup(d1, e.path) is None {
                    lemma_lookup_upsert_same(d1, created_directory(e, now));
                }
            },
            EntryKind::Symlink => {},
        }
    }
}

/// With the comparison switched off, every file of the source tree is
/// rewritten on every run, whatever the destination held.
pub proof fn lemma_overwrite_all_when_off(
    s: Seq<SourceModel>,
    d: Seq<TargetModel>,
    cfg: CopyConfig,
    now: i64,
)
    requires
        cfg.comparison == Comparison::Off,
    ensures
        copied_count(s, d, cfg, now) == file_count(s),
    decreases s.len(),
{
    if s.len() > 0 {
        lemma_overwrite_all_when_off(s.drop_last(), d, cfg, now);
    }
}

/// Under `Date`, a read-only destination file whose modification time
/// differs from the source's is refused, and its entry — bytes, times and
/// permissions — is left exactly as it was.
pub proof fn lemma_readonly_target_untouched(
    d: Seq<TargetModel>,
    e: SourceModel,
    cfg: CopyConfig,
    now: i64,
    t: TargetModel,
)
    requires
        cfg.comparison == Comparison::Date,
        e.kind == EntryKind::File,
        lookup(d, e.path) == Some(t),
        t.readonly,
        t.mtime != e.mtime,
    ensures
        entry_outcome(d, e, cfg) == Some(CopyOutcome::Failed(FileCopyError::ReadOnlyTarget)),
        dest_after_entry(d, e, cfg, now) == d,
        lookup(dest_after_entry(d, e, cfg, now), e.path) == Some(t),
{
}

/// A successful copy that preserves metadata leaves the source's bytes and
/// both of its timestamps at the mirrored path.
pub proof fn lemma_preserves_metadata(
    d: Seq<TargetModel>,
    e: SourceModel,
    cfg: CopyConfig,
    now: i64,
)
    requires
        cfg.preserve_metadata,
        e.kind == EntryKind::File,
        entry_outcome(d, e, cfg) == Some(CopyOutcome::Copied),
    ensures
        lookup(dest_after_entry(d, e, cfg, now), e.path) == Some(written_target(e, cfg, now)),
        written_target(e, cfg, now).mtime == e.mtime,
        written_target(e, cfg, now).atime == e.atime,
        written_target(e, cfg, now).content == e.content,
{
    lemma_lookup_upsert_same(d, written_target(e, cfg, now));
}

/// Every regular file of the source tree reports exactly one outcome: the
/// three counters of a run's summary add up to the number of files walked,
/// so no file's failure can go unreported.
pub proof fn lemma_every_file_reported(
    s: Seq<SourceModel>,
    d: Seq<TargetModel>,
    cfg: CopyConfig,
    now: i64,
)
    ensures
        copied_count(s, d, cfg, now) + skipped_count(s, d, cfg, now) + failed_count(s, d, cfg, now)
            == file_count(s),
    decreases s.len(),
{
    if s.len() > 0 {
        lemma_every_file_reported(s.drop_last(), d, cfg, now);
    }
}

/// A file whose mirrored path the destination does not yet hold is copied
/// whatever the strategy: after the walk of a tree with no two entries at
/// one path, that path holds the source's bytes — and the source's
/// timestamps when the run preserves metadata.
pub proof fn lemma_fresh_file_is_copied(
    s: Seq<SourceModel>,
    d: Seq<TargetModel>,
    cfg: CopyConfig,
    now: i64,
    i: int,
)
    requires
        distinct_paths(s),
        0 <= i < s.len(),
        s[i].kind == EntryKind::File,
        lookup(d, s[i].path) is None,
    ensures
        lookup(dest_after_walk(s, d, cfg, now), s[i].path) == Some(
            written_target(s[i], cfg, now),
        ),
        entry_outcome(dest_after_walk(s.take(i), d, cfg, now), s[i], cfg) == Some(
            CopyOutcome::Copied,
        ),
{
    let e = s[i];
    let p = e.path;
    assert forall|k: int| 0 <= k < s.take(i).len() implies ((#[trigger] s.take(i)[k]).kind
        == EntryKind::Symlink || s.take(i)[k].path != p) by {
        assert(s.take(i)[k] == s[k]);
        assert(s[k].path != s[i].path);
    }
    lemma_untouched_paths(s.take(i), d, cfg, now, p);
    let b = dest_after_walk(s.take(i), d, cfg, now);
    assert(s =~= s.take(i + 1) + s.skip(i + 1));
    lemma_walk_append(s.take(i + 1), s.skip(i + 1), d, cfg, now);
    let a = dest_after_walk(s.take(i + 1), d, cfg, now);
    assert(s.take(i + 1).drop_last() =~= s.take(i));
    assert(s.take(i + 1).last() == e);
    assert(a == dest_after_entry(b, e, cfg, now));
    lemma_lookup_upsert_same(b, written_target(e, cfg, now));
    assert forall|k: int| 0 <= k < s.skip(i + 1).len() implies ((#[trigger] s.skip(i + 1)[k]).kind
        == EntryKind::Symlink || s.skip(i + 1)[k].path != p) by {
        assert(s.skip(i + 1)[k] == s[i + 1 + k]);
        assert(s[i].path != s[i + 1 + k].path);
    }
    lemma_untouched_paths(s.skip(i + 1), a, cfg, now, p);
}

/// A walk over a concatenation is the walk over the first part followed by
/// the walk over the second.
pub proof fn lemma_walk_append(
    s1: Seq<SourceModel>,
    s2: Seq<SourceModel>,
    d: Seq<TargetModel>,
    cfg: CopyConfig,
    now: i64,
)
    ensures
        dest_after_walk(s1 + s2, d, cfg, now) == dest_after_walk(
            s2,
            dest_after_walk(s1, d, cfg, now),
            cfg,
            now,
        ),
    decreases s2.len(),
{
    if s2.len() == 0 {
        assert(s1 + s2 =~= s1);
    } else {
        lemma_walk_append(s1, s2.drop_last(), d, cfg, now);
        assert((s1 + s2).drop_last() =~= s1 + s2.drop_last());
        assert((s1 + s2).last() == s2.last());
    }
}

/// A walk none of whose entries is reported as copied copies nothing.
proof fn lemma_no_copies_pointwise(
    s: Seq<SourceModel>,
    d: Seq<TargetModel>,
    cfg: CopyConfig,
    now: i64,
)
    requires
        forall|i: int|
            0 <= i < s.len() ==> entry_outcome(dest_after_walk(s.take(i), d, cfg, now), s[i], cfg)
                != Some(CopyOutcome::Copied),
    ensures
        copied_count(s, d, cfg, now) == 0,
    decreases s.len(),
{
    if s.len() > 0 {
        assert forall|i: int| 0 <= i < s.len() - 1 implies entry_outcome(
            dest_after_walk(s.drop_last().take(i), d, cfg, now),
            s.drop_last()[i],
            cfg,
        ) != Some(CopyOutcome::Copied) by {
            assert(s.drop_last().take(i) =~= s.take(i));
            assert(s.drop_last()[i] == s[i]);
        }
        lemma_no_copies_pointwise(s.drop_last(), d, cfg, now);
        assert(s.take(s.len() - 1) =~= s.drop_last());
    }
}

/// Idempotence under `Exists`: a second walk of an unchanged source tree
/// against what the first walk left copies no bytes at all — every file
/// entry is skipped or refused, none is rewritten.
pub proof fn lemma_second_run_copies_nothing_exists(
    s: Seq<SourceModel>,
    d: Seq<TargetModel>,
    cfg: CopyConfig,
    now1: i64,
    now2: i64,
)
    requires
        cfg.comparison == Comparison::Exists,
    ensures
        copied_count(s, dest_after_walk(s, d, cfg, now1), cfg, now2) == 0,
{
    let d1 = dest_after_walk(s, d, cfg, now1);
    assert forall|i: int| 0 <= i < s.len() implies entry_outcome(
        dest_after_walk(s.take(i), d1, cfg, now2),
        s[i],
        cfg,
    ) != Some(CopyOutcome::Copied) by {
        if s[i].kind == EntryKind::File {
            lemma_every_entry_mirrored(s, d, cfg, now1, i);
            lemma_walk_preserves_presence(s.take(i), d1, cfg, now2, s[i].path);
        }
    }
    lemma_no_copies_pointwise(s, d1, cfg, now2);
}

/// Idempotence under `Date` with metadata preservation: a second walk of an
/// unchanged source tree, with no two source entries at one path, copies no
/// bytes — every file is up to date or still refused as read-only.
pub proof fn lemma_second_run_copies_nothing_date(
    s: Seq<SourceModel>,
    d: Seq<TargetModel>,
    cfg: CopyConfig,
    now1: i64,
    now2: i64,
)
    requires
        cfg.comparison == Comparison::Date,
        cfg.preserve_metadata,
        distinct_paths(s),
    ensures
        copied_count(s, dest_after_walk(s, d, cfg, now1), cfg, now2) == 0,
{
    let d1 = dest_after_walk(s, d, cfg, now1);
    assert forall|i: int| 0 <= i < s.len() implies entry_outcome(
        dest_after_walk(s.take(i), d1, cfg, now2),
        s[i],
        cfg,
    ) != Some(CopyOutcome::Copied) by {
        if s[i].kind == EntryKind::File {
            let e = s[i];
            let p = e.path;
            assert forall|k: int| 0 <= k < s.take(i).len() implies (s.take(i)[k].kind
                == EntryKind::Symlink || s.take(i)[k].path != p) by {
                assert(s.take(i)[k] == s[k]);
                assert(s[k].path != s[i].path);
            }
            lemma_untouched_paths(s.take(i), d1, cfg, now2, p);
            assert(s =~= s.take(i + 1) + s.skip(i + 1));
            lemma_walk_append(s.take(i + 1), s.skip(i + 1), d, cfg, now1);
            let b = dest_after_walk(s.take(i), d, cfg, now1);
            let a = dest_after_walk(s.take(i + 1), d, cfg, now1);
            assert(s.take(i + 1).drop_last() =~= s.take(i));
            assert(s.take(i + 1).last() == e);
            assert(a == dest_after_entry(b, e, cfg, now1));
            assert forall|k: int| 0 <= k < s.skip(i + 1).len() implies ((#[trigger] s.skip(i + 1)[k]).kind
                == EntryKind::Symlink || s.skip(i + 1)[k].path != p) by {
                assert(s.skip(i + 1)[k] == s[i + 1 + k]);
                assert(s[i].path != s[i + 1 + k].path);
            }
            lemma_untouched_paths(s.skip(i + 1), a, cfg, now1, p);
            assert(lookup(d1, p) == lookup(a, p));
            match entry_decision(b, e, cfg) {
                Decision::Overwrite => {
                    lemma_lookup_upsert_same(b, written_target(e, cfg, now1));
                },
                Decision::Skip => {},
                Decision::Abort => {},
            }
        }
    }
    lemma_no_copies_pointwise(s, d1, cfg, now2);
}

/// A symlink the run does not follow leaves no trace: no destination entry
/// is created and no outcome is reported.
pub proof fn lemma_symlink_leaves_no_trace(
    d: Seq<TargetModel>,
    e: SourceModel,
    cfg: CopyConfig,
    now: i64,
)
    requires
        e.kind == EntryKind::Symlink,
    ensures
        dest_after_entry(d, e, cfg, now) == d,
        entry_outcome(d, e, cfg) is None,
{
}

} // verus!
