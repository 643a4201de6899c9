//! The overlay layer manager: the layers of one instance, and the filesystem
//! operations that mounting, committing, rolling back and destroying it perform.

use vstd::prelude::*;
use crate::diff::{Diff, DiffView, UpperEntryView, below_override, below_spec, diff_spec, diff_views, is_below};
use crate::error::LayerError;
use crate::path::{SEP, is_current, is_parent, join_path, join_spec, strip_path_prefix, strip_prefix_spec};

verus! {

/// The lower layer's place below an instance directory.
pub open spec fn local_rel() -> Seq<u8> {
    seq![108u8, 97u8, 121u8, 101u8, 114u8, 115u8, 47u8, 108u8, 111u8, 99u8, 97u8, 108u8]
}

/// The upper layer's place below an instance directory.
pub open spec fn diff_rel() -> Seq<u8> {
    seq![108u8, 97u8, 121u8, 101u8, 114u8, 115u8, 47u8, 100u8, 105u8, 102u8, 102u8]
}

/// The work layer's place below an instance directory.
pub open spec fn work_rel() -> Seq<u8> {
    seq![
        108u8, 97u8, 121u8, 101u8, 114u8, 115u8, 47u8, 100u8, 105u8, 102u8, 102u8, 46u8, 116u8,
        109u8, 112u8,
    ]
}

/// The filesystem type that the mount table shows for an overlay mount.
pub open spec fn overlay_type() -> Seq<u8> {
    seq![111u8, 118u8, 101u8, 114u8, 108u8, 97u8, 121u8]
}

/// Whether `name` may name an instance: it is not empty, holds no separator,
/// and is neither `.` nor `..`.
pub open spec fn valid_instance_name(name: Seq<u8>) -> bool {
    name.len() > 0 && (forall|i: int| 0 <= i < name.len() ==> name[i] != SEP) && !is_current(name)
        && !is_parent(name)
}

/// The directories of one overlay instance.
#[derive(Clone, Debug)]
pub struct OverlayFS {
    /// The instance directory.
    pub inst: Vec<u8>,
    /// The shared base layer.
    pub base: Vec<u8>,
    /// The instance's lower (configuration) layer.
    pub lower: Vec<u8>,
    /// The upper layer, which takes the writes.
    pub upper: Vec<u8>,
    /// The work layer that the kernel needs.
    pub work: Vec<u8>,
}

/// The mathematical content of an [`OverlayFS`].
pub struct OverlayView {
    /// The instance directory.
    pub inst: Seq<u8>,
    /// The shared base layer.
    pub base: Seq<u8>,
    /// The instance's lower (configuration) layer.
    pub lower: Seq<u8>,
    /// The upper layer, which takes the writes.
    pub upper: Seq<u8>,
    /// The work layer that the kernel needs.
    pub work: Seq<u8>,
}

impl View for OverlayFS {
    type V = OverlayView;

    open spec fn view(&self) -> OverlayView {
        OverlayView {
            inst: self.inst@,
            base: self.base@,
            lower: self.lower@,
            upper: self.upper@,
            work: self.work@,
        }
    }
}

/// The directories of instance `name` under the instances directory `inst_path`,
/// over the base layer `dist`.
pub open spec fn layout_spec(dist: Seq<u8>, inst_path: Seq<u8>, name: Seq<u8>) -> OverlayView {
    let inst = join_spec(inst_path, name);
    OverlayView {
        inst,
        base: dist,
        lower: join_spec(inst, local_rel()),
        upper: join_spec(inst, diff_rel()),
        work: join_spec(inst, work_rel()),
    }
}

/// One filesystem operation of the core.  The program that performs them stops
/// at the first that fails.
#[derive(Clone, Debug)]
pub enum FsOp {
    /// Rename `from` to `to`.
    Move { from: Vec<u8>, to: Vec<u8> },
    /// Rename the file `from` over `to`, then give `to` the permission bits that
    /// `from` had.
    MoveFile { from: Vec<u8>, to: Vec<u8> },
    /// Remove whatever `to` holds, then make `to` an empty directory with the
    /// permission bits of the directory `from`; the entries below follow as
    /// operations of their own.
    ReplaceDir { from: Vec<u8>, to: Vec<u8> },
    /// Create the directory, with mode 0o755 under the process umask; its parent
    /// exists.
    CreateDir(Vec<u8>),
    /// Create the directory and any missing parents.
    CreateDirAll(Vec<u8>),
    /// Copy the permission bits of `from` onto `to`.
    SyncMode { from: Vec<u8>, to: Vec<u8> },
    /// Create the directory `to`, whose parent exists, then give it the
    /// permission bits of the directory `from`.
    CreateDirFrom { from: Vec<u8>, to: Vec<u8> },
    /// Remove the path, a directory with its contents; a missing path is no failure.
    Remove(Vec<u8>),
    /// Remove the directory with its contents; a missing directory is a failure.
    RemoveTree(Vec<u8>),
}

/// The mathematical content of an [`FsOp`].
pub enum FsOpView {
    Move { from: Seq<u8>, to: Seq<u8> },
    MoveFile { from: Seq<u8>, to: Seq<u8> },
    ReplaceDir { from: Seq<u8>, to: Seq<u8> },
    CreateDir(Seq<u8>),
    CreateDirAll(Seq<u8>),
    SyncMode { from: Seq<u8>, to: Seq<u8> },
    CreateDirFrom { from: Seq<u8>, to: Seq<u8> },
    Remove(Seq<u8>),
    RemoveTree(Seq<u8>),
}

impl View for FsOp {
    type V = FsOpView;

    open spec fn view(&self) -> FsOpView {
        match self {
            FsOp::Move { from, to } => FsOpView::Move { from: from@, to: to@ },
            FsOp::MoveFile { from, to } => FsOpView::MoveFile { from: from@, to: to@ },
            FsOp::ReplaceDir { from, to } => FsOpView::ReplaceDir { from: from@, to: to@ },
            FsOp::CreateDir(p) => FsOpView::CreateDir(p@),
            FsOp::CreateDirAll(p) => FsOpView::CreateDirAll(p@),
            FsOp::SyncMode { from, to } => FsOpView::SyncMode { from: from@, to: to@ },
            FsOp::CreateDirFrom { from, to } => FsOpView::CreateDirFrom { from: from@, to: to@ },
            FsOp::Remove(p) => FsOpView::Remove(p@),
            FsOp::RemoveTree(p) => FsOpView::RemoveTree(p@),
        }
    }
}

/// The views of a sequence of operations.
pub open spec fn op_views(s: Seq<FsOp>) -> Seq<FsOpView> {
    s.map_values(|o: FsOp| o@)
}

/// The operation that applies the change record `d` to the lower layer of `l`,
/// after the records `prior` that come before it.  A symlink record whose path
/// lies outside the upper layer is refused.  An opaque directory's lower copy is
/// emptied when its record is applied, so a directory below it that only changed
/// its metadata is made again, with the upper copy's permission bits.
pub open spec fn record_op_spec(l: OverlayView, d: DiffView, prior: Seq<DiffView>) -> Result<FsOpView, LayerError> {
    match d {
        DiffView::Symlink(p) => match strip_prefix_spec(p, l.upper) {
            Some(rel) => if rel.len() > 0 {
                Ok(FsOpView::Move { from: p, to: join_spec(l.lower, rel) })
            } else {
                Err(LayerError::ParseError)
            },
            None => Err(LayerError::ParseError),
        },
        DiffView::OverrideDir(r) => Ok(
            FsOpView::ReplaceDir { from: join_spec(l.upper, r), to: join_spec(l.lower, r) },
        ),
        DiffView::RenamedDir(f, t) => Ok(
            FsOpView::Move { from: join_spec(l.lower, f), to: join_spec(l.lower, t) },
        ),
        DiffView::NewDir(r) => Ok(FsOpView::CreateDir(join_spec(l.lower, r))),
        DiffView::ModifiedDir(r) => if below_override(prior, r) {
            Ok(FsOpView::CreateDirFrom { from: join_spec(l.upper, r), to: join_spec(l.lower, r) })
        } else {
            Ok(FsOpView::SyncMode { from: join_spec(l.upper, r), to: join_spec(l.lower, r) })
        },
        DiffView::WhiteoutFile(r) => Ok(FsOpView::Remove(join_spec(l.lower, r))),
        DiffView::File(r) => Ok(
            FsOpView::MoveFile { from: join_spec(l.upper, r), to: join_spec(l.lower, r) },
        ),
    }
}

/// The operations that apply the records `ds` in order, one for each record, or
/// the failure of the first record that is refused.
pub open spec fn plan_spec(l: OverlayView, ds: Seq<DiffView>) -> Result<Seq<FsOpView>, LayerError>
    decreases ds.len(),
{
    if ds.len() == 0 {
        Ok(Seq::empty())
    } else {
        match plan_spec(l, ds.drop_last()) {
            Ok(ops) => match record_op_spec(l, ds.last(), ds.drop_last()) {
                Ok(op) => Ok(ops.push(op)),
                Err(e) => Err(e),
            },
            Err(e) => Err(e),
        }
    }
}

/// What a commit of `l` performs, given the walk `entries` of its upper layer.
pub open spec fn commit_spec(l: OverlayView, entries: Seq<UpperEntryView>) -> Result<Seq<FsOpView>, LayerError> {
    match diff_spec(l.upper, entries) {
        Ok(ds) => plan_spec(l, ds),
        Err(e) => Err(e),
    }
}

/// What a rollback of `l` performs: the upper and work layers are removed and
/// made again, empty.
pub open spec fn rollback_spec(l: OverlayView) -> Seq<FsOpView> {
    seq![
        FsOpView::RemoveTree(l.upper),
        FsOpView::RemoveTree(l.work),
        FsOpView::CreateDir(l.upper),
        FsOpView::CreateDir(l.work),
    ]
}

/// What a mount of `l` prepares: the work, upper and lower layers are made where
/// they are missing.
pub open spec fn mount_prep_spec(l: OverlayView) -> Seq<FsOpView> {
    seq![FsOpView::CreateDirAll(l.work), FsOpView::CreateDirAll(l.upper), FsOpView::CreateDirAll(l.lower)]
}

/// What destroying `l` performs: the instance directory is removed with all it holds.
pub open spec fn destroy_spec(l: OverlayView) -> Seq<FsOpView> {
    seq![FsOpView::RemoveTree(l.inst)]
}

/// The operation that applies one change record to the lower layer of `l`.
fn record_op(l: &OverlayFS, d: &Diff, records: &Vec<Diff>, n: usize) -> (r: Result<FsOp, LayerError>)
    requires
        n <= records@.len(),
    ensures
        match r {
            Ok(op) => record_op_spec(l@, d@, diff_views(records@).subrange(0, n as int)) == Ok::<
                FsOpView,
                LayerError,
            >(op@),
            Err(e) => record_op_spec(l@, d@, diff_views(records@).subrange(0, n as int)) == Err::<
                FsOpView,
                LayerError,
            >(e),
        },
{
    match d {
        Diff::Symlink(p) => match strip_path_prefix(p.as_slice(), l.upper.as_slice()) {
            Some(rel) => if rel.len() > 0 {
                Ok(FsOp::Move { from: p.clone(), to: join_path(l.lower.as_slice(), rel.as_slice()) })
            } else {
                Err(LayerError::ParseError)
            },
            None => Err(LayerError::ParseError),
        },
        Diff::OverrideDir(r) => Ok(
            FsOp::ReplaceDir {
                from: join_path(l.upper.as_slice(), r.as_slice()),
                to: join_path(l.lower.as_slice(), r.as_slice()),
            },
        ),
        Diff::RenamedDir(f, t) => Ok(
            FsOp::Move {
                from: join_path(l.lower.as_slice(), f.as_slice()),
                to: join_path(l.lower.as_slice(), t.as_slice()),
            },
        ),
        Diff::NewDir(r) => Ok(FsOp::CreateDir(join_path(l.lower.as_slice(), r.as_slice()))),
        Diff::ModifiedDir(r) => {
            let from = join_path(l.upper.as_slice(), r.as_slice());
            let to = join_path(l.lower.as_slice(), r.as_slice());
            if below_opaque(records, n, r.as_slice()) {
                Ok(FsOp::CreateDirFrom { from, to })
            } else {
                Ok(FsOp::SyncMode { from, to })
            }
        },
        Diff::WhiteoutFile(r) => Ok(FsOp::Remove(join_path(l.lower.as_slice(), r.as_slice()))),
        Diff::File(r) => Ok(
            FsOp::MoveFile {
                from: join_path(l.upper.as_slice(), r.as_slice()),
                to: join_path(l.lower.as_slice(), r.as_slice()),
            },
        ),
    }
}

/// Whether `rel` lies below a directory that one of the first `n` records marks opaque.
fn below_opaque(records: &Vec<Diff>, n: usize, rel: &[u8]) -> (r: bool)
    requires
        n <= records@.len(),
    ensures
        r == below_override(diff_views(records@).subrange(0, n as int), rel@),
{
    let ghost prior = diff_views(records@).subrange(0, n as int);
    let mut j: usize = 0;
    while j < n
        invariant
            0 <= j <= n,
            n <= records@.len(),
            prior == diff_views(records@).subrange(0, n as int),
            forall|k: int|
                0 <= k < j ==> !(#[trigger] prior[k] matches DiffView::OverrideDir(o) && below_spec(rel@, o)),
        decreases n - j,
    {
        if let Diff::OverrideDir(o) = &records[j] {
            if is_below(rel, o.as_slice()) {
                assert(prior[j as int] == DiffView::OverrideDir(o@));
                return true;
            }
        }
        assert(prior[j as int] == records@[j as int]@);
        j = j + 1;
    }
    false
}

/// A plan whose prefix is refused is refused with the same failure.
proof fn lemma_plan_fails_on(l: OverlayView, ds: Seq<DiffView>, n: int)
    requires
        0 <= n <= ds.len(),
        plan_spec(l, ds.subrange(0, n)) is Err,
    ensures
        plan_spec(l, ds) == plan_spec(l, ds.subrange(0, n)),
    decreases ds.len(),
{
    if n < ds.len() {
        assert(ds.drop_last().subrange(0, n) == ds.subrange(0, n));
        lemma_plan_fails_on(l, ds.drop_last(), n);
    } else {
        assert(ds.subrange(0, n) == ds);
    }
}

impl OverlayFS {
    /// The operations that apply the change records `records`, in their order.
    pub fn plan_commit(&self, records: &Vec<Diff>) -> (r: Result<Vec<FsOp>, LayerError>)
        ensures
            match r {
                Ok(ops) => plan_spec(self@, diff_views(records@)) == Ok::<
                    Seq<FsOpView>,
                    LayerError,
                >(op_views(ops@)),
                Err(e) => plan_spec(self@, diff_views(records@)) == Err::<
                    Seq<FsOpView>,
                    LayerError,
                >(e),
            },
    {
        let mut ops: Vec<FsOp> = Vec::new();
        let mut i: usize = 0;
        assert(diff_views(records@).subrange(0, 0) =~= Seq::<DiffView>::empty());
        assert(op_views(ops@) =~= Seq::<FsOpView>::empty());
        while i < records.len()
            invariant
                0 <= i <= records@.len(),
                plan_spec(self@, diff_views(records@).subrange(0, i as int)) == Ok::<
                    Seq<FsOpView>,
                    LayerError,
                >(op_views(ops@)),
            decreases records@.len() - i,
        {
            let ghost pre = diff_views(records@).subrange(0, i as int);
            let ghost next = diff_views(records@).subrange(0, i + 1);
            assert(next.drop_last() == pre);
            assert(next.last() == records@[i as int]@);
            match record_op(self, &records[i], records, i) {
                Ok(op) => {
                    let ghost before = ops@;
                    ops.push(op);
                    assert(op_views(ops@) =~= op_views(before).push(op@));
                },
                Err(e) => {
                    proof {
                        lemma_plan_fails_on(self@, diff_views(records@), i + 1);
                    }
                    return Err(e);
                },
            }
            i = i + 1;
        }
        assert(diff_views(records@).subrange(0, records@.len() as int) == diff_views(records@));
        Ok(ops)
    }
}

} // verus!
