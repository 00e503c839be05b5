use vstd::prelude::*;
use crate::schedule::ErrorPolicy;

verus! {

/// A modification time: whole seconds since the Unix epoch and the
/// nanoseconds past them.
#[derive(Clone, Copy, Debug, PartialEq, Eq, Structural)]
pub struct MTime {
    pub secs: u64,
    pub nanos: u32,
}

impl MTime {
    /// `self` is strictly later than `other`.
    pub open spec fn later_than(self, other: MTime) -> bool {
        self.secs > other.secs || (self.secs == other.secs && self.nanos > other.nanos)
    }

    pub fn is_later_than(&self, other: &MTime) -> (r: bool)
        ensures
            r == self.later_than(*other),
    {
        self.secs > other.secs || (self.secs == other.secs && self.nanos > other.nanos)
    }
}

/// What the walk of the source tree reports of one entry.
#[derive(Clone, Copy, Debug, PartialEq, Eq, Structural)]
pub enum SourceEntry {
    Directory,
    File { modified: MTime },
    /// Neither a directory nor a regular file (a socket, a broken link).
    Other,
}

/// What stands at the corresponding path under the destination root.
#[derive(Clone, Copy, Debug, PartialEq, Eq, Structural)]
pub enum DestEntry {
    Absent,
    Present { modified: MTime },
}

/// What a pass does with one source entry.
#[derive(Clone, Copy, Debug, PartialEq, Eq, Structural)]
pub enum Action {
    /// Create the directory and its missing ancestors.
    CreateDir,
    /// Copy the file over the destination path, overwriting it.
    Copy,
    /// Touch nothing.
    Leave,
}

/// The decision rule: a missing directory is created; a file is copied when
/// nothing stands at its destination or when the source is strictly newer.
pub open spec fn action_for(src: SourceEntry, dst: DestEntry) -> Action {
    match src {
        SourceEntry::Directory => match dst {
            DestEntry::Absent => Action::CreateDir,
            DestEntry::Present { .. } => Action::Leave,
        },
        SourceEntry::File { modified } => match dst {
            DestEntry::Absent => Action::Copy,
            DestEntry::Present { modified: d } => if modified.later_than(d) {
                Action::Copy
            } else {
                Action::Leave
            },
        },
        SourceEntry::Other => Action::Leave,
    }
}

/// Decides what a pass does with one source entry.
pub fn decide(src: &SourceEntry, dst: &DestEntry) -> (r: Action)
    ensures
        r == action_for(*src, *dst),
{
    match src {
        SourceEntry::Directory => match dst {
            DestEntry::Absent => Action::CreateDir,
            DestEntry::Present { .. } => Action::Leave,
        },
        SourceEntry::File { modified } => match dst {
            DestEntry::Absent => Action::Copy,
            DestEntry::Present { modified: d } => if modified.is_later_than(d) {
                Action::Copy
            } else {
                Action::Leave
            },
        },
        SourceEntry::Other => Action::Leave,
    }
}

/// The saturating tally of one pass: files copied and entries that failed.
#[derive(Clone, Copy, Debug, PartialEq, Eq, Structural)]
pub struct PassTally {
    pub files_copied: u64,
    pub failures: u64,
}

impl PassTally {
    pub fn new() -> (r: PassTally)
        ensures
            r.files_copied == 0,
            r.failures == 0,
    {
        PassTally { files_copied: 0, failures: 0 }
    }

    /// Counts one file that was copied.
    pub fn record_copy(&mut self)
        ensures
            final(self).files_copied == (if old(self).files_copied < u64::MAX {
                old(self).files_copied + 1
            } else {
                old(self).files_copied as int
            }),
            final(self).failures == old(self).failures,
    {
        self.files_copied = self.files_copied.saturating_add(1);
    }

    /// Counts one entry that failed, and says whether the pass goes on
    /// (`Continue`) or ends here (`FailFast`).
    pub fn record_failure(&mut self, policy: ErrorPolicy) -> (go_on: bool)
        ensures
            final(self).failures == (if old(self).failures < u64::MAX {
                old(self).failures + 1
            } else {
                old(self).failures as int
            }),
            final(self).files_copied == old(self).files_copied,
            go_on == (policy == ErrorPolicy::Continue),
    {
        self.failures = self.failures.saturating_add(1);
        policy == ErrorPolicy::Continue
    }
}

/// A path relative to a tree's root, one name per component.
pub type RelPath = Seq<Seq<char>>;

/// A node of a directory tree, as far as a pass is concerned.
pub enum Node {
    Dir { modified: MTime },
    File { content: Seq<u8>, modified: MTime },
}

impl Node {
    pub open spec fn modified(self) -> MTime {
        match self {
            Node::Dir { modified } => modified,
            Node::File { modified, .. } => modified,
        }
    }
}

/// A directory tree: each relative path below the root mapped to its node.
pub type Tree = Map<RelPath, Node>;

/// How the walk reports a source node.
pub open spec fn source_entry_of(n: Node) -> SourceEntry {
    match n {
        Node::Dir { .. } => SourceEntry::Directory,
        Node::File { modified, .. } => SourceEntry::File { modified },
    }
}

/// What the pass finds at `p` under the destination root.
pub open spec fn dest_entry_at(dst: Tree, p: RelPath) -> DestEntry {
    if dst.contains_key(p) {
        DestEntry::Present { modified: dst[p].modified() }
    } else {
        DestEntry::Absent
    }
}

/// The action a pass takes at a source path `p`.
pub open spec fn action_at(src: Tree, dst: Tree, p: RelPath) -> Action {
    action_for(source_entry_of(src[p]), dest_entry_at(dst, p))
}

/// The source paths whose file a pass copies.
pub open spec fn copied_paths(src: Tree, dst: Tree) -> Set<RelPath> {
    Set::new(|p: RelPath| src.contains_key(p) && action_at(src, dst, p) == Action::Copy)
}

/// The `filesCopied` of a pass from `src` over `dst`.
pub open spec fn files_copied(src: Tree, dst: Tree) -> nat {
    copied_paths(src, dst).len()
}

/// A pass from `src` over `dst` that succeeded may leave `out` behind: a
/// created directory is a directory, a copied file has the source's content
/// and a modification time no older than the source's, and every other path
/// keeps what it had.
pub open spec fn pass_outcome(src: Tree, dst: Tree, out: Tree) -> bool {
    &&& out.dom() == dst.dom().union(src.dom())
    &&& forall|p: RelPath| #[trigger] out.contains_key(p) ==> {
        if src.contains_key(p) {
            match action_at(src, dst, p) {
                Action::CreateDir => out[p] is Dir,
                Action::Copy => out[p] is File && out[p]->content == src[p]->content
                    && !src[p].modified().later_than(out[p].modified()),
                Action::Leave => out[p] == dst[p],
            }
        } else {
            out[p] == dst[p]
        }
    }
}

/// One outcome of a pass: created directories take the source directory's
/// time and copied files are exact copies of the source's.
pub open spec fn exact_outcome(src: Tree, dst: Tree) -> Tree {
    Map::new(
        |p: RelPath| dst.contains_key(p) || src.contains_key(p),
        |p: RelPath|
            if src.contains_key(p) {
                match action_at(src, dst, p) {
                    Action::CreateDir => Node::Dir { modified: src[p].modified() },
                    Action::Copy => src[p],
                    Action::Leave => dst[p],
                }
            } else {
                dst[p]
            },
    )
}

/// Every pair of trees admits an outcome of a pass, so the laws below speak of
/// passes that can happen.
pub proof fn lemma_outcome_exists(src: Tree, dst: Tree)
    ensures
        pass_outcome(src, dst, exact_outcome(src, dst)),
{
    let out = exact_outcome(src, dst);
    assert(out.dom() =~= dst.dom().union(src.dom()));
    assert forall|p: RelPath| #[trigger] out.contains_key(p) && src.contains_key(p)
        && action_at(src, dst, p) == Action::Copy implies out[p] is File by {
        if src[p] is Dir {
            assert(action_at(src, dst, p) != Action::Copy);
        }
    }
}

/// No path holds a directory in one tree and a file in the other: the
/// condition under which every directory creation and copy can succeed.
pub open spec fn kinds_agree(src: Tree, dst: Tree) -> bool {
    forall|p: RelPath| #[trigger] src.contains_key(p) && dst.contains_key(p)
        ==> (src[p] is Dir <==> dst[p] is Dir)
}

/// A second pass with no change to the source in between copies nothing.
pub proof fn lemma_idempotent(src: Tree, dst: Tree, out: Tree)
    requires
        pass_outcome(src, dst, out),
    ensures
        copied_paths(src, out) == Set::<RelPath>::empty(),
        files_copied(src, out) == 0,
{
    assert forall|p: RelPath| !copied_paths(src, out).contains(p) by {
        if src.contains_key(p) {
            assert(out.contains_key(p));
        }
    }
    assert(copied_paths(src, out) =~= Set::<RelPath>::empty());
}

/// After a successful pass every source file stands at the same relative path
/// in the destination with the same content. This needs every destination
/// file that the pass leaves alone, being at least as new as its source, to
/// hold the source's content already.
pub proof fn lemma_complete(src: Tree, dst: Tree, out: Tree, p: RelPath)
    requires
        pass_outcome(src, dst, out),
        kinds_agree(src, dst),
        src.contains_key(p),
        src[p] is File,
        dst.contains_key(p) && dst[p] is File && !src[p].modified().later_than(dst[p].modified())
            ==> dst[p]->content == src[p]->content,
    ensures
        out.contains_key(p),
        out[p] is File,
        out[p]->content == src[p]->content,
{
    assert(out.contains_key(p));
    if dst.contains_key(p) {
        assert(dst[p] is File);
    }
}

/// A destination file at least as new as its source is neither changed nor
/// counted.
pub proof fn lemma_no_clobber(src: Tree, dst: Tree, out: Tree, p: RelPath)
    requires
        pass_outcome(src, dst, out),
        src.contains_key(p),
        src[p] is File,
        dst.contains_key(p),
        !src[p].modified().later_than(dst[p].modified()),
    ensures
        out.contains_key(p),
        out[p] == dst[p],
        !copied_paths(src, dst).contains(p),
{
    assert(out.contains_key(p));
}

/// Every source directory has a directory at its path in the destination
/// after a successful pass, whatever was decided for the files.
pub proof fn lemma_dirs_mirrored(src: Tree, dst: Tree, out: Tree, p: RelPath)
    requires
        pass_outcome(src, dst, out),
        kinds_agree(src, dst),
        src.contains_key(p),
        src[p] is Dir,
    ensures
        out.contains_key(p),
        out[p] is Dir,
{
    assert(out.contains_key(p));
}

/// A destination path with no counterpart in the source keeps what it holds,
/// pass after pass.
pub proof fn lemma_no_deletion(src: Tree, dsts: Seq<Tree>, p: RelPath)
    requires
        dsts.len() > 0,
        forall|i: int| 0 <= i < dsts.len() - 1 ==> pass_outcome(src, dsts[i], #[trigger] dsts[i + 1]),
        !src.contains_key(p),
        dsts[0].contains_key(p),
    ensures
        forall|i: int| 0 <= i < dsts.len() ==> (#[trigger] dsts[i]).contains_key(p) && dsts[i][p] == dsts[0][p],
    decreases dsts.len(),
{
    if dsts.len() > 1 {
        let init = dsts.drop_last();
        assert forall|i: int| 0 <= i < init.len() - 1 implies pass_outcome(src, init[i], #[trigger] init[i + 1]) by {
            assert(init[i] == dsts[i] && init[i + 1] == dsts[i + 1]);
            assert(pass_outcome(src, dsts[i], dsts[i + 1]));
        }
        lemma_no_deletion(src, init, p);
        let k = dsts.len() - 2;
        assert(init[k] == dsts[k]);
        assert(pass_outcome(src, dsts[k], dsts[k + 1]));
        assert(dsts[k + 1].contains_key(p));
        assert forall|i: int| 0 <= i < dsts.len() implies (#[trigger] dsts[i]).contains_key(p) && dsts[i][p] == dsts[0][p] by {
            if i < dsts.len() - 1 {
                assert(init[i] == dsts[i]);
            }
        }
    }
}

} // verus!
