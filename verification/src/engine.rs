//! The walk-and-copy engine, stated over an abstract view of the two trees.
//!
//! The walker enumerates a source tree into entries, each at its path
//! relative to the source root; the destination tree is the set of entries
//! the run has produced, at the mirrored relative paths. `walk` replays a
//! whole enumeration against a destination tree and returns the summary;
//! `apply_entry` is the single step that one worker task performs. The
//! binary crate performs the same steps against the real filesystem,
//! consulting `dispatch` and the comparison policy for every decision.

use vstd::prelude::*;
use crate::config::CopyConfig;
use crate::outcome::{CopyOutcome, CopySummary, FileCopyError, SkipReason};
use crate::policy::{Comparison, Decision, DestMeta, decide, decision_of};

verus! {

/// What kind of entry the walker found in a source directory.
#[derive(Clone, Copy, Debug, PartialEq, Eq, Structural)]
pub enum EntryKind {
    File,
    Directory,
    Symlink,
}

/// How the walker dispatches one directory entry.
#[derive(Clone, Copy, Debug, PartialEq, Eq, Structural)]
pub enum WalkAction {
    /// Walk the directory into the mirrored destination path.
    Recurse,
    /// Consult the comparison policy, then copy the file.
    CopyFile,
    /// Resolve the link and walk its target into the mirrored path.
    FollowLink,
    /// Create no destination entry for this source entry.
    Ignore,
}

/// The dispatch rule of the walker: directories recurse, regular files are
/// copied, and a symlink is walked through only when the run follows links.
pub fn dispatch(kind: EntryKind, follow_symlinks: bool) -> (a: WalkAction)
    ensures
        a == WalkAction::Recurse <==> kind == EntryKind::Directory,
        a == WalkAction::CopyFile <==> kind == EntryKind::File,
        a == WalkAction::FollowLink <==> (kind == EntryKind::Symlink && follow_symlinks),
        a == WalkAction::Ignore <==> (kind == EntryKind::Symlink && !follow_symlinks),
{
    match kind {
        EntryKind::Directory => WalkAction::Recurse,
        EntryKind::File => WalkAction::CopyFile,
        EntryKind::Symlink => if follow_symlinks {
            WalkAction::FollowLink
        } else {
            WalkAction::Ignore
        },
    }
}

/// The path separator of the mirrored tree.
pub const SEPARATOR: u8 = 47;

/// The destination path that mirrors one source entry: the destination
/// directory joined with the entry's file name.
pub fn mirror_path(dir: &Vec<u8>, name: &Vec<u8>) -> (p: Vec<u8>)
    requires
        dir@.len() + 1 + name@.len() <= usize::MAX,
    ensures
        p@ == dir@ + seq![SEPARATOR] + name@,
{
    let mut p: Vec<u8> = Vec::new();
    let mut i: usize = 0;
    while i < dir.len()
        invariant
            i <= dir@.len(),
            p@ == dir@.subrange(0, i as int),
        decreases dir@.len() - i,
    {
        p.push(dir[i]);
        i = i + 1;
    }
    assert(p@ =~= dir@);
    p.push(SEPARATOR);
    let mut j: usize = 0;
    while j < name.len()
        invariant
            j <= name@.len(),
            dir@.len() + 1 + name@.len() <= usize::MAX,
            p@ == dir@ + seq![SEPARATOR] + name@.subrange(0, j as int),
        decreases name@.len() - j,
    {
        p.push(name[j]);
        j = j + 1;
    }
    assert(p@ =~= dir@ + seq![SEPARATOR] + name@);
    p
}

/// One entry of the source tree, as the walker enumerated it, at its path
/// relative to the source root. A run through a followed symlink enumerates
/// the link's target, so a `Symlink` entry is one the run does not follow.
#[derive(Debug)]
pub struct SourceEntry {
    pub path: Vec<u8>,
    pub kind: EntryKind,
    pub mtime: i64,
    pub atime: i64,
    pub content: Vec<u8>,
}

/// One entry of the destination tree, at its path relative to the
/// destination root.
#[derive(Debug)]
pub struct TargetEntry {
    pub path: Vec<u8>,
    pub kind: EntryKind,
    pub mtime: i64,
    pub atime: i64,
    pub readonly: bool,
    pub content: Vec<u8>,
}

/// The mathematical view of a source entry.
pub ghost struct SourceModel {
    pub path: Seq<u8>,
    pub kind: EntryKind,
    pub mtime: i64,
    pub atime: i64,
    pub content: Seq<u8>,
}

/// The mathematical view of a destination entry.
pub ghost struct TargetModel {
    pub path: Seq<u8>,
    pub kind: EntryKind,
    pub mtime: i64,
    pub atime: i64,
    pub readonly: bool,
    pub content: Seq<u8>,
}

impl View for SourceEntry {
    type V = SourceModel;

    open spec fn view(&self) -> SourceModel {
        SourceModel {
            path: self.path@,
            kind: self.kind,
            mtime: self.mtime,
            atime: self.atime,
            content: self.content@,
        }
    }
}

impl View for TargetEntry {
    type V = TargetModel;

    open spec fn view(&self) -> TargetModel {
        TargetModel {
            path: self.path@,
            kind: self.kind,
            mtime: self.mtime,
            atime: self.atime,
            readonly: self.readonly,
            content: self.content@,
        }
    }
}

/// The views of a walker's enumeration, in the order it was produced.
pub open spec fn source_models(s: Seq<SourceEntry>) -> Seq<SourceModel> {
    s.map_values(|e: SourceEntry| e@)
}

/// The destination tree: every entry a run has produced or found, keyed by
/// its relative path. Lookups return the first entry with a given path.
#[derive(Debug)]
pub struct TargetTree {
    pub entries: Vec<TargetEntry>,
}

impl View for TargetTree {
    type V = Seq<TargetModel>;

    open spec fn view(&self) -> Seq<TargetModel> {
        self.entries@.map_values(|e: TargetEntry| e@)
    }
}

/// The first entry of the tree at the given path, if any.
pub open spec fn lookup(d: Seq<TargetModel>, p: Seq<u8>) -> Option<TargetModel>
    decreases d.len(),
{
    if d.len() == 0 {
        None
    } else if d[0].path == p {
        Some(d[0])
    } else {
        lookup(d.drop_first(), p)
    }
}

/// The tree with `t` written at its path: the first entry at that path is
/// replaced, or `t` is appended when the path is new.
pub open spec fn upsert(d: Seq<TargetModel>, t: TargetModel) -> Seq<TargetModel>
    decreases d.len(),
{
    if d.len() == 0 {
        seq![t]
    } else if d[0].path == t.path {
        seq![t] + d.drop_first()
    } else {
        seq![d[0]] + upsert(d.drop_first(), t)
    }
}

/// What the policy is shown of the destination before one file is copied.
pub open spec fn dest_meta_of(t: Option<TargetModel>) -> Option<DestMeta> {
    match t {
        Some(m) => Some(DestMeta { mtime: Some(m.mtime), readonly: m.readonly }),
        None => None,
    }
}

/// The decision the policy takes for one file entry against the tree.
pub open spec fn entry_decision(d: Seq<TargetModel>, e: SourceModel, cfg: CopyConfig) -> Decision {
    decision_of(cfg.comparison, dest_meta_of(lookup(d, e.path)), Some(e.mtime))
}

/// The destination file that overwriting one source file leaves behind:
/// the source's bytes, and the source's timestamps when the run preserves
/// metadata, the time of the write otherwise.
pub open spec fn written_target(e: SourceModel, cfg: CopyConfig, now: i64) -> TargetModel {
    TargetModel {
        path: e.path,
        kind: EntryKind::File,
        mtime: if cfg.preserve_metadata {
            e.mtime
        } else {
            now
        },
        atime: if cfg.preserve_metadata {
            e.atime
        } else {
            now
        },
        readonly: false,
        content: e.content,
    }
}

/// The destination directory that mirroring one source directory creates.
pub open spec fn created_directory(e: SourceModel, now: i64) -> TargetModel {
    TargetModel {
        path: e.path,
        kind: EntryKind::Directory,
        mtime: now,
        atime: now,
        readonly: false,
        content: Seq::empty(),
    }
}

/// The destination tree after one entry's task ran: a file is written,
/// skipped or refused as the policy decides; a directory is created once,
/// idempotently; a symlink the run does not follow leaves no trace.
pub open spec fn dest_after_entry(
    d: Seq<TargetModel>,
    e: SourceModel,
    cfg: CopyConfig,
    now: i64,
) -> Seq<TargetModel> {
    match e.kind {
        EntryKind::File => match entry_decision(d, e, cfg) {
            Decision::Overwrite => upsert(d, written_target(e, cfg, now)),
            Decision::Skip => d,
            Decision::Abort => d,
        },
        EntryKind::Directory => if lookup(d, e.path) is Some {
            d
        } else {
            upsert(d, created_directory(e, now))
        },
        EntryKind::Symlink => d,
    }
}

/// The outcome one entry's task reports: files report a copy, a skip or a
/// confined failure; directories and unfollowed symlinks report nothing.
pub open spec fn entry_outcome(d: Seq<TargetModel>, e: SourceModel, cfg: CopyConfig) -> Option<
    CopyOutcome,
> {
    match e.kind {
        EntryKind::File => Some(
            match entry_decision(d, e, cfg) {
                Decision::Overwrite => CopyOutcome::Copied,
                Decision::Skip => CopyOutcome::Skipped(skip_reason(cfg.comparison)),
                Decision::Abort => CopyOutcome::Failed(FileCopyError::ReadOnlyTarget),
            },
        ),
        EntryKind::Directory => None,
        EntryKind::Symlink => None,
    }
}

/// Why a skipping strategy skipped: `Exists` skips whatever exists, `Date`
/// skips what is already up to date.
pub open spec fn skip_reason(strategy: Comparison) -> SkipReason {
    if strategy == Comparison::Exists {
        SkipReason::DestinationExists
    } else {
        SkipReason::UpToDate
    }
}

/// The destination tree after a whole enumeration ran, entry by entry.
pub open spec fn dest_after_walk(
    s: Seq<SourceModel>,
    d: Seq<TargetModel>,
    cfg: CopyConfig,
    now: i64,
) -> Seq<TargetModel>
    decreases s.len(),
{
    if s.len() == 0 {
        d
    } else {
        dest_after_entry(dest_after_walk(s.drop_last(), d, cfg, now), s.last(), cfg, now)
    }
}

/// How many entries of the enumeration report the given outcome kind when
/// the walk runs against `d`. The three counters of a summary.
pub open spec fn copied_count(s: Seq<SourceModel>, d: Seq<TargetModel>, cfg: CopyConfig, now: i64) -> nat
    decreases s.len(),
{
    if s.len() == 0 {
        0
    } else {
        copied_count(s.drop_last(), d, cfg, now) + if entry_outcome(
            dest_after_walk(s.drop_last(), d, cfg, now),
            s.last(),
            cfg,
        ) == Some(CopyOutcome::Copied) {
            1nat
        } else {
            0nat
        }
    }
}

/// See `copied_count`.
pub open spec fn skipped_count(s: Seq<SourceModel>, d: Seq<TargetModel>, cfg: CopyConfig, now: i64) -> nat
    decreases s.len(),
{
    if s.len() == 0 {
        0
    } else {
        skipped_count(s.drop_last(), d, cfg, now) + if entry_outcome(
            dest_after_walk(s.drop_last(), d, cfg, now),
            s.last(),
            cfg,
        ) matches Some(CopyOutcome::Skipped(_)) {
            1nat
        } else {
            0nat
        }
    }
}

/// See `copied_count`.
pub open spec fn failed_count(s: Seq<SourceModel>, d: Seq<TargetModel>, cfg: CopyConfig, now: i64) -> nat
    decreases s.len(),
{
    if s.len() == 0 {
        0
    } else {
        failed_count(s.drop_last(), d, cfg, now) + if entry_outcome(
            dest_after_walk(s.drop_last(), d, cfg, now),
            s.last(),
            cfg,
        ) matches Some(CopyOutcome::Failed(_)) {
            1nat
        } else {
            0nat
        }
    }
}

/// `lookup` finds the entry at position `i` when nothing before it has the
/// path.
proof fn lemma_lookup_at(d: Seq<TargetModel>, p: Seq<u8>, i: int)
    requires
        0 <= i < d.len(),
        d[i].path == p,
        forall|k: int| 0 <= k < i ==> d[k].path != p,
    ensures
        lookup(d, p) == Some(d[i]),
    decreases i,
{
    if i > 0 {
        assert(forall|k: int| 0 <= k < i - 1 ==> d.drop_first()[k] == d[k + 1]);
        lemma_lookup_at(d.drop_first(), p, i - 1);
    }
}

/// `lookup` finds nothing when no entry has the path.
proof fn lemma_lookup_none(d: Seq<TargetModel>, p: Seq<u8>)
    requires
        forall|k: int| 0 <= k < d.len() ==> d[k].path != p,
    ensures
        lookup(d, p) is None,
    decreases d.len(),
{
    if d.len() > 0 {
        assert(forall|k: int| 0 <= k < d.len() - 1 ==> d.drop_first()[k] == d[k + 1]);
        lemma_lookup_none(d.drop_first(), p);
    }
}

/// When the first entry at `t`'s path stands at position `i`, `upsert`
/// replaces exactly that position.
proof fn lemma_upsert_update(d: Seq<TargetModel>, t: TargetModel, i: int)
    requires
        0 <= i < d.len(),
        d[i].path == t.path,
        forall|k: int| 0 <= k < i ==> d[k].path != t.path,
    ensures
        upsert(d, t) == d.update(i, t),
    decreases i,
{
    if i == 0 {
        assert(upsert(d, t) =~= d.update(0, t));
    } else {
        assert(forall|k: int| 0 <= k < i - 1 ==> d.drop_first()[k] == d[k + 1]);
        lemma_upsert_update(d.drop_first(), t, i - 1);
        assert(upsert(d, t) =~= d.update(i, t));
    }
}

/// When no entry has `t`'s path, `upsert` appends `t`.
proof fn lemma_upsert_push(d: Seq<TargetModel>, t: TargetModel)
    requires
        forall|k: int| 0 <= k < d.len() ==> d[k].path != t.path,
    ensures
        upsert(d, t) == d.push(t),
    decreases d.len(),
{
    if d.len() == 0 {
        assert(upsert(d, t) =~= d.push(t));
    } else {
        assert(forall|k: int| 0 <= k < d.len() - 1 ==> d.drop_first()[k] == d[k + 1]);
        lemma_upsert_push(d.drop_first(), t);
        assert(upsert(d, t) =~= d.push(t));
    }
}

/// After `upsert`, the written path holds exactly the written entry.
pub(crate) proof fn lemma_lookup_upsert_same(d: Seq<TargetModel>, t: TargetModel)
    ensures
        lookup(upsert(d, t), t.path) == Some(t),
    decreases d.len(),
{
    if d.len() != 0 && d[0].path != t.path {
        lemma_lookup_upsert_same(d.drop_first(), t);
        assert((seq![d[0]] + upsert(d.drop_first(), t)).drop_first() =~= upsert(
            d.drop_first(),
            t,
        ));
    }
}

/// `upsert` changes no path but the written one.
pub(crate) proof fn lemma_lookup_upsert_other(d: Seq<TargetModel>, t: TargetModel, p: Seq<u8>)
    requires
        p != t.path,
    ensures
        lookup(upsert(d, t), p) == lookup(d, p),
    decreases d.len(),
{
    if d.len() == 0 {
        assert(upsert(d, t) =~= seq![t]);
        assert(seq![t].drop_first() =~= Seq::<TargetModel>::empty());
        assert(lookup(seq![t].drop_first(), p) is None);
    } else if d[0].path == t.path {
        assert((seq![t] + d.drop_first()).drop_first() =~= d.drop_first());
    } else {
        lemma_lookup_upsert_other(d.drop_first(), t, p);
        assert((seq![d[0]] + upsert(d.drop_first(), t)).drop_first() =~= upsert(
            d.drop_first(),
            t,
        ));
    }
}

/// A walk reports at most one outcome per entry.
proof fn lemma_counts_bound(s: Seq<SourceModel>, d: Seq<TargetModel>, cfg: CopyConfig, now: i64)
    ensures
        copied_count(s, d, cfg, now) + skipped_count(s, d, cfg, now) + failed_count(s, d, cfg, now)
            <= s.len(),
    decreases s.len(),
{
    if s.len() > 0 {
        lemma_counts_bound(s.drop_last(), d, cfg, now);
    }
}

/// Bytes equality: whether two paths or two contents are the same sequence.
fn bytes_eq(a: &Vec<u8>, b: &Vec<u8>) -> (r: bool)
    ensures
        r <==> a@ == b@,
{
    if a.len() != b.len() {
        return false;
    }
    let mut i: usize = 0;
    while i < a.len()
        invariant
            i <= a@.len(),
            a@.len() == b@.len(),
            forall|k: int| 0 <= k < i ==> a@[k] == b@[k],
        decreases a@.len() - i,
    {
        if a[i] != b[i] {
            return false;
        }
        i = i + 1;
    }
    proof {
        assert(a@ =~= b@);
    }
    true
}

/// A fresh copy of a byte sequence.
fn clone_bytes(v: &Vec<u8>) -> (r: Vec<u8>)
    ensures
        r@ == v@,
{
    let mut r: Vec<u8> = Vec::new();
    let mut i: usize = 0;
    while i < v.len()
        invariant
            i <= v@.len(),
            r@ == v@.subrange(0, i as int),
        decreases v@.len() - i,
    {
        r.push(v[i]);
        i = i + 1;
    }
    proof {
        assert(r@ =~= v@);
    }
    r
}

impl TargetTree {
    /// An empty destination tree.
    pub fn new() -> (t: Self)
        ensures
            t@ == Seq::<TargetModel>::empty(),
    {
        let t = TargetTree { entries: Vec::new() };
        proof {
            assert(t@ =~= Seq::<TargetModel>::empty());
        }
        t
    }

    /// The position of the first entry at the given path.
    fn find(&self, p: &Vec<u8>) -> (r: Option<usize>)
        ensures
            match r {
                Some(i) => i < self@.len() && self@[i as int].path == p@ && (forall|k: int|
                    0 <= k < i ==> self@[k].path != p@),
                None => forall|k: int| 0 <= k < self@.len() ==> self@[k].path != p@,
            },
    {
        let mut i: usize = 0;
        while i < self.entries.len()
            invariant
                i <= self.entries@.len(),
                self@.len() == self.entries@.len(),
                forall|k: int| 0 <= k < i ==> self@[k].path != p@,
            decreases self.entries@.len() - i,
        {
            if bytes_eq(&self.entries[i].path, p) {
                return Some(i);
            }
            i = i + 1;
        }
        None
    }

    /// The entry at the given path, if the tree holds one.
    pub fn get(&self, p: &Vec<u8>) -> (r: Option<&TargetEntry>)
        ensures
            match r {
                Some(t) => lookup(self@, p@) == Some(t@),
                None => lookup(self@, p@) is None,
            },
    {
        match self.find(p) {
            Some(i) => {
                proof {
                    lemma_lookup_at(self@, p@, i as int);
                }
                Some(&self.entries[i])
            },
            None => {
                proof {
                    lemma_lookup_none(self@, p@);
                }
                None
            },
        }
    }

    /// Write one entry: replace the first entry at its path, or append it.
    fn upsert_entry(&mut self, t: TargetEntry)
        ensures
            final(self)@ == upsert(old(self)@, t@),
    {
        let idx = self.find(&t.path);
        match idx {
            Some(i) => {
                proof {
                    lemma_upsert_update(self@, t@, i as int);
                }
                self.entries.set(i, t);
                proof {
                    assert(self@ =~= old(self)@.update(idx->Some_0 as int, t@));
                }
            },
            None => {
                proof {
                    lemma_upsert_push(self@, t@);
                }
                self.entries.push(t);
                proof {
                    assert(self@ =~= old(self)@.push(t@));
                }
            },
        }
    }
}

/// Run one entry's task against the destination tree: the step a worker
/// performs for one enumerated source entry. The returned outcome is the
/// one the task reports; directory and ignored-symlink tasks report none.
pub fn apply_entry(dest: &mut TargetTree, entry: &SourceEntry, config: &CopyConfig, now: i64) -> (o:
    Option<CopyOutcome>)
    ensures
        final(dest)@ == dest_after_entry(old(dest)@, entry@, *config, now),
        o == entry_outcome(old(dest)@, entry@, *config),
{
    match entry.kind {
        EntryKind::File => {
            let meta: Option<DestMeta> = match dest.get(&entry.path) {
                Some(t) => Some(DestMeta { mtime: Some(t.mtime), readonly: t.readonly }),
                None => None,
            };
            let decision = decide(config.comparison, meta, Some(entry.mtime));
            match decision {
                Decision::Overwrite => {
                    let t = TargetEntry {
                        path: clone_bytes(&entry.path),
                        kind: EntryKind::File,
                        mtime: if config.preserve_metadata {
                            entry.mtime
                        } else {
                            now
                        },
                        atime: if config.preserve_metadata {
                            entry.atime
                        } else {
                            now
                        },
                        readonly: false,
                        content: clone_bytes(&entry.content),
                    };
                    dest.upsert_entry(t);
                    Some(CopyOutcome::Copied)
                },
                Decision::Skip => {
                    let reason = match config.comparison {
                        Comparison::Exists => SkipReason::DestinationExists,
                        _ => SkipReason::UpToDate,
                    };
                    Some(CopyOutcome::Skipped(reason))
                },
                Decision::Abort => Some(CopyOutcome::Failed(FileCopyError::ReadOnlyTarget)),
            }
        },
        EntryKind::Directory => {
            let present = match dest.get(&entry.path) {
                Some(_) => true,
                None => false,
            };
            if !present {
                let t = TargetEntry {
                    path: clone_bytes(&entry.path),
                    kind: EntryKind::Directory,
                    mtime: now,
                    atime: now,
                    readonly: false,
                    content: Vec::new(),
                };
                dest.upsert_entry(t);
            }
            None
        },
        EntryKind::Symlink => None,
    }
}

/// Replay a whole enumeration of the source tree against the destination
/// tree, entry by entry, and count every file's outcome. The real run
/// performs the same per-entry steps in parallel worker tasks; each task
/// touches only its own entry's path, so the interleaving does not change
/// what the run leaves behind.
pub fn walk(src: &Vec<SourceEntry>, dest: &mut TargetTree, config: &CopyConfig, now: i64) -> (summary:
    CopySummary)
    ensures
        final(dest)@ == dest_after_walk(source_models(src@), old(dest)@, *config, now),
        summary.copied == copied_count(source_models(src@), old(dest)@, *config, now),
        summary.skipped == skipped_count(source_models(src@), old(dest)@, *config, now),
        summary.failed == failed_count(source_models(src@), old(dest)@, *config, now),
{
    let ghost d0: Seq<TargetModel> = dest@;
    let ghost ms: Seq<SourceModel> = source_models(src@);
    let mut summary = CopySummary::new();
    let mut i: usize = 0;
    while i < src.len()
        invariant
            i <= src@.len(),
            ms == source_models(src@),
            ms.len() == src@.len(),
            dest@ == dest_after_walk(ms.take(i as int), d0, *config, now),
            summary.copied == copied_count(ms.take(i as int), d0, *config, now),
            summary.skipped == skipped_count(ms.take(i as int), d0, *config, now),
            summary.failed == failed_count(ms.take(i as int), d0, *config, now),
        decreases src@.len() - i,
    {
        proof {
            lemma_counts_bound(ms.take(i as int), d0, *config, now);
        }
        let o = apply_entry(dest, &src[i], config, now);
        proof {
            assert(ms.take(i as int + 1).drop_last() =~= ms.take(i as int));
            assert(ms.take(i as int + 1).last() == ms[i as int]);
        }
        match o {
            Some(oc) => summary.record(oc),
            None => (),
        }
        i = i + 1;
    }
    proof {
        assert(ms.take(src@.len() as int) =~= ms);
    }
    summary
}

} // verus!
