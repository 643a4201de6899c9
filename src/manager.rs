//! The capability set of a layer manager, and the overlay manager that provides it.

use vstd::prelude::*;
use vstd::string::StringExecFns;
use crate::diff::{UpperEntry, UpperEntryView, diff, entry_views};
use crate::error::LayerError;
use crate::overlay::{
    FsOp, FsOpView, OverlayFS, OverlayView, commit_spec, destroy_spec, diff_rel, layout_spec,
    local_rel, mount_prep_spec, op_views, overlay_type, rollback_spec, valid_instance_name, work_rel,
};
use crate::path::{DOT, SEP, is_current, is_parent, join_path, join_spec, strip_path_prefix, strip_prefix_spec};
use crate::probe::{is_mounted, mountinfo_rows, probe_spec};

verus! {

/// What presenting a stacked view takes: the directories to make first, then one
/// mount of the layers at the target.
#[derive(Clone, Debug)]
pub struct MountPlan {
    /// Operations to perform before the mount.
    pub prepare: Vec<FsOp>,
    /// The lower layers, top first.
    pub lowerdirs: Vec<Vec<u8>>,
    /// The upper layer.
    pub upperdir: Vec<u8>,
    /// The work layer.
    pub workdir: Vec<u8>,
    /// Where the stacked view appears.
    pub target: Vec<u8>,
}

/// The mathematical content of a [`MountPlan`].
pub struct MountPlanView {
    pub prepare: Seq<FsOpView>,
    pub lowerdirs: Seq<Seq<u8>>,
    pub upperdir: Seq<u8>,
    pub workdir: Seq<u8>,
    pub target: Seq<u8>,
}

impl View for MountPlan {
    type V = MountPlanView;

    open spec fn view(&self) -> MountPlanView {
        MountPlanView {
            prepare: op_views(self.prepare@),
            lowerdirs: crate::path::views(self.lowerdirs@),
            upperdir: self.upperdir@,
            workdir: self.workdir@,
            target: self.target@,
        }
    }
}

/// How the overlay of `l` is presented at `to`: the work, upper and lower layers
/// are made where missing, then the upper layer is stacked over the lower layer
/// over the base layer.
pub open spec fn overlay_mount_spec(l: OverlayView, to: Seq<u8>) -> MountPlanView {
    MountPlanView {
        prepare: mount_prep_spec(l),
        lowerdirs: seq![l.lower, l.base],
        upperdir: l.upper,
        workdir: l.work,
        target: to,
    }
}

/// A manager of the layers of one instance.  Its operations decide; the caller
/// performs the operations that they return, and reports the live state that
/// they need (whether the target is mounted now, the mount table).
pub trait LayerManager: Sized {
    /// The filesystem type that the mount table shows for this manager's mounts.
    spec fn fs_type() -> Seq<u8>;

    /// The manager's name.
    spec fn name_spec() -> Seq<char>;

    /// Whether the manager is bound to instance `name` under `inst_path`, over the
    /// base layer `dist`.
    spec fn bound_to(&self, dist: Seq<u8>, inst_path: Seq<u8>, name: Seq<u8>) -> bool;

    /// The base layer.
    spec fn base_layer_spec(&self) -> Seq<u8>;

    /// The configuration (lower) layer.
    spec fn config_layer_spec(&self) -> Seq<u8>;

    /// How the stacked view is presented at `to`.
    spec fn mount_spec(&self, to: Seq<u8>) -> MountPlanView;

    /// What a commit performs, given the walk of the upper layer.
    spec fn commit_spec(&self, entries: Seq<UpperEntryView>) -> Result<Seq<FsOpView>, LayerError>;

    /// What a rollback performs.
    spec fn rollback_spec(&self) -> Seq<FsOpView>;

    /// What destroying the instance performs.
    spec fn destroy_spec(&self) -> Seq<FsOpView>;

    /// The name of the manager, the filesystem type of its mounts.
    fn name() -> (r: String)
        ensures
            r@ == Self::name_spec(),
    ;

    /// A manager for instance `inst_name` under `inst_path`, over the base layer
    /// `dist_path`.  Touches no file.  Fails with `InvalidName` when the name is
    /// empty, holds a separator, or is `.` or `..`.
    fn from_inst_dir(dist_path: &[u8], inst_path: &[u8], inst_name: &[u8]) -> (r: Result<Self, LayerError>)
        ensures
            r is Ok <==> valid_instance_name(inst_name@),
            r matches Err(e) ==> e == LayerError::InvalidName,
            r matches Ok(m) ==> m.bound_to(dist_path@, inst_path@, inst_name@),
    ;

    /// How to present the stacked view at `to`; `mounted` tells whether `to` is
    /// mounted now.  Fails with `AlreadyMounted` when it is.
    fn mount(&self, to: &[u8], mounted: bool) -> (r: Result<MountPlan, LayerError>)
        ensures
            mounted ==> (r matches Err(e) && e == LayerError::AlreadyMounted),
            !mounted ==> (r matches Ok(p) && p@ == self.mount_spec(to@)),
    ;

    /// Whether the mount table whose contents are `mountinfo` shows `target`
    /// mounted with this manager's filesystem type.
    fn is_mounted(&self, mountinfo: &[u8], target: &[u8]) -> (r: Result<bool, LayerError>)
        ensures
            r == probe_spec(mountinfo_rows(mountinfo@), target@, Self::fs_type()),
    ;

    /// What discarding the upper layer performs; `mounted` tells whether the
    /// instance is mounted now.  Fails with `AlreadyMounted` when it is.
    fn rollback(&self, mounted: bool) -> (r: Result<Vec<FsOp>, LayerError>)
        ensures
            mounted ==> (r matches Err(e) && e == LayerError::AlreadyMounted),
            !mounted ==> (r matches Ok(ops) && op_views(ops@) == self.rollback_spec()),
    ;

    /// What merging the upper layer into the lower layer performs, given the walk
    /// `entries` of the upper layer.  Fails with `AlreadyMounted`, and nothing to
    /// perform, when the instance is mounted.
    fn commit(&self, mounted: bool, entries: &Vec<UpperEntry>) -> (r: Result<Vec<FsOp>, LayerError>)
        ensures
            mounted ==> (r matches Err(e) && e == LayerError::AlreadyMounted),
            !mounted ==> match r {
                Ok(ops) => self.commit_spec(entry_views(entries@)) == Ok::<
                    Seq<FsOpView>,
                    LayerError,
                >(op_views(ops@)),
                Err(e) => self.commit_spec(entry_views(entries@)) == Err::<
                    Seq<FsOpView>,
                    LayerError,
                >(e),
            },
    ;

    /// The path to detach lazily from the mount namespace; `mounted` tells whether
    /// `target` is mounted now.  Fails with `NotMounted` when it is not.
    fn unmount(&self, target: &[u8], mounted: bool) -> (r: Result<Vec<u8>, LayerError>)
        ensures
            !mounted ==> (r matches Err(e) && e == LayerError::NotMounted),
            mounted ==> (r matches Ok(p) && p@ == target@),
    ;

    /// The directory of the configuration layer.
    fn get_config_layer(&self) -> (r: Result<Vec<u8>, LayerError>)
        ensures
            (r matches Ok(p) && p@ == self.config_layer_spec()),
    ;

    /// The directory of the base layer.
    fn get_base_layer(&self) -> (r: Result<Vec<u8>, LayerError>)
        ensures
            (r matches Ok(p) && p@ == self.base_layer_spec()),
    ;

    /// What removing the instance performs; `mounted` tells whether it is mounted
    /// now.  Fails with `AlreadyMounted` when it is.
    fn destroy(&self, mounted: bool) -> (r: Result<Vec<FsOp>, LayerError>)
        ensures
            mounted ==> (r matches Err(e) && e == LayerError::AlreadyMounted),
            !mounted ==> (r matches Ok(ops) && op_views(ops@) == self.destroy_spec()),
    ;
}

/// The shared base layer's place in a workspace.
pub open spec fn dist_dir() -> Seq<u8> {
    seq![100u8, 105u8, 115u8, 116u8]
}

/// The instances directory's place in a workspace.
pub open spec fn instances_dir() -> Seq<u8> {
    seq![105u8, 110u8, 115u8, 116u8, 97u8, 110u8, 99u8, 101u8, 115u8]
}

fn local_rel_bytes() -> (r: Vec<u8>)
    ensures
        r@ == local_rel(),
{
    vec![108u8, 97u8, 121u8, 101u8, 114u8, 115u8, 47u8, 108u8, 111u8, 99u8, 97u8, 108u8]
}

fn diff_rel_bytes() -> (r: Vec<u8>)
    ensures
        r@ == diff_rel(),
{
    vec![108u8, 97u8, 121u8, 101u8, 114u8, 115u8, 47u8, 100u8, 105u8, 102u8, 102u8]
}

fn work_rel_bytes() -> (r: Vec<u8>)
    ensures
        r@ == work_rel(),
{
    vec![
        108u8, 97u8, 121u8, 101u8, 114u8, 115u8, 47u8, 100u8, 105u8, 102u8, 102u8, 46u8, 116u8,
        109u8, 112u8,
    ]
}

fn overlay_type_bytes() -> (r: Vec<u8>)
    ensures
        r@ == overlay_type(),
{
    vec![111u8, 118u8, 101u8, 114u8, 108u8, 97u8, 121u8]
}

/// Whether `name` may name an instance: it is not empty, holds no separator,
/// and is neither `.` nor `..`.
pub fn is_valid_instance_name(name: &[u8]) -> (r: bool)
    ensures
        r == valid_instance_name(name@),
{
    if name.len() == 0 {
        return false;
    }
    if name.len() == 1 && name[0] == DOT {
        assert(is_current(name@)) by {
            assert(name@ =~= seq![DOT]);
        }
        return false;
    }
    if name.len() == 2 && name[0] == DOT && name[1] == DOT {
        assert(is_parent(name@)) by {
            assert(name@ =~= seq![DOT, DOT]);
        }
        return false;
    }
    assert(!is_current(name@) && !is_parent(name@)) by {
        if name@ == seq![DOT] {
            assert(name@.len() == 1 && name@[0] == DOT);
        }
        if name@ == seq![DOT, DOT] {
            assert(name@.len() == 2 && name@[0] == DOT && name@[1] == DOT);
        }
    }
    let mut i: usize = 0;
    while i < name.len()
        invariant
            0 <= i <= name@.len(),
            forall|j: int| 0 <= j < i ==> name@[j] != SEP,
        decreases name@.len() - i,
    {
        if name[i] == SEP {
            return false;
        }
        i = i + 1;
    }
    true
}

impl OverlayFS {
    /// The path in the lower layer that stands where `upper_path` stands in the
    /// upper layer; `None` when `upper_path` lies outside the upper layer.
    pub fn lower_path_of(&self, upper_path: &[u8]) -> (r: Option<Vec<u8>>)
        ensures
            match strip_prefix_spec(upper_path@, self.upper@) {
                Some(rel) => r matches Some(p) && p@ == join_spec(self.lower@, rel),
                None => r is None,
            },
    {
        match strip_path_prefix(upper_path, self.upper.as_slice()) {
            Some(rel) => Some(join_path(self.lower.as_slice(), rel.as_slice())),
            None => None,
        }
    }
}

impl OverlayFS {
    /// What making the instance's directory skeleton performs: the work, upper and
    /// lower layers are made where missing.
    pub fn create_layers(&self) -> (r: Vec<FsOp>)
        ensures
            op_views(r@) == mount_prep_spec(self@),
    {
        let mut ops: Vec<FsOp> = Vec::new();
        ops.push(FsOp::CreateDirAll(self.work.clone()));
        ops.push(FsOp::CreateDirAll(self.upper.clone()));
        ops.push(FsOp::CreateDirAll(self.lower.clone()));
        assert(op_views(ops@) =~= mount_prep_spec(self@));
        ops
    }
}

impl LayerManager for OverlayFS {
    open spec fn fs_type() -> Seq<u8> {
        overlay_type()
    }

    open spec fn name_spec() -> Seq<char> {
        seq!['o', 'v', 'e', 'r', 'l', 'a', 'y']
    }

    open spec fn bound_to(&self, dist: Seq<u8>, inst_path: Seq<u8>, name: Seq<u8>) -> bool {
        self@ == layout_spec(dist, inst_path, name)
    }

    open spec fn base_layer_spec(&self) -> Seq<u8> {
        self.base@
    }

    open spec fn config_layer_spec(&self) -> Seq<u8> {
        self.lower@
    }

    open spec fn mount_spec(&self, to: Seq<u8>) -> MountPlanView {
        overlay_mount_spec(self@, to)
    }

    open spec fn commit_spec(&self, entries: Seq<UpperEntryView>) -> Result<Seq<FsOpView>, LayerError> {
        commit_spec(self@, entries)
    }

    open spec fn rollback_spec(&self) -> Seq<FsOpView> {
        rollback_spec(self@)
    }

    open spec fn destroy_spec(&self) -> Seq<FsOpView> {
        destroy_spec(self@)
    }

    fn name() -> (r: String) {
        let r = String::from_str("overlay");
        proof {
            reveal_strlit("overlay");
        }
        assert(r@ =~= seq!['o', 'v', 'e', 'r', 'l', 'a', 'y']);
        r
    }

    fn from_inst_dir(dist_path: &[u8], inst_path: &[u8], inst_name: &[u8]) -> (r: Result<Self, LayerError>) {
        if !is_valid_instance_name(inst_name) {
            return Err(LayerError::InvalidName);
        }
        let inst = join_path(inst_path, inst_name);
        let mut base: Vec<u8> = Vec::new();
        crate::path::push_bytes(&mut base, dist_path);
        assert(base@ =~= dist_path@);
        let lower = join_path(inst.as_slice(), local_rel_bytes().as_slice());
        let upper = join_path(inst.as_slice(), diff_rel_bytes().as_slice());
        let work = join_path(inst.as_slice(), work_rel_bytes().as_slice());
        Ok(OverlayFS { inst, base, lower, upper, work })
    }

    fn mount(&self, to: &[u8], mounted: bool) -> (r: Result<MountPlan, LayerError>) {
        if mounted {
            return Err(LayerError::AlreadyMounted);
        }
        let prepare = self.create_layers();
        let mut lowerdirs: Vec<Vec<u8>> = Vec::new();
        lowerdirs.push(self.lower.clone());
        lowerdirs.push(self.base.clone());
        let mut target: Vec<u8> = Vec::new();
        crate::path::push_bytes(&mut target, to);
        let plan = MountPlan {
            prepare,
            lowerdirs,
            upperdir: self.upper.clone(),
            workdir: self.work.clone(),
            target,
        };
        assert(plan@.prepare =~= mount_prep_spec(self@));
        assert(plan@.lowerdirs =~= seq![self.lower@, self.base@]);
        assert(target@ =~= to@);
        Ok(plan)
    }

    fn is_mounted(&self, mountinfo: &[u8], target: &[u8]) -> (r: Result<bool, LayerError>) {
        let fs_type = overlay_type_bytes();
        is_mounted(mountinfo, target, fs_type.as_slice())
    }

    fn rollback(&self, mounted: bool) -> (r: Result<Vec<FsOp>, LayerError>) {
        if mounted {
            return Err(LayerError::AlreadyMounted);
        }
        let mut ops: Vec<FsOp> = Vec::new();
        ops.push(FsOp::RemoveTree(self.upper.clone()));
        ops.push(FsOp::RemoveTree(self.work.clone()));
        ops.push(FsOp::CreateDir(self.upper.clone()));
        ops.push(FsOp::CreateDir(self.work.clone()));
        assert(op_views(ops@) =~= rollback_spec(self@));
        Ok(ops)
    }

    fn commit(&self, mounted: bool, entries: &Vec<UpperEntry>) -> (r: Result<Vec<FsOp>, LayerError>) {
        if mounted {
            return Err(LayerError::AlreadyMounted);
        }
        match diff(self.upper.as_slice(), entries) {
            Ok(records) => self.plan_commit(&records),
            Err(e) => Err(e),
        }
    }

    fn unmount(&self, target: &[u8], mounted: bool) -> (r: Result<Vec<u8>, LayerError>) {
        if !mounted {
            return Err(LayerError::NotMounted);
        }
        let mut p: Vec<u8> = Vec::new();
        crate::path::push_bytes(&mut p, target);
        assert(p@ =~= target@);
        Ok(p)
    }

    fn get_config_layer(&self) -> (r: Result<Vec<u8>, LayerError>) {
        Ok(self.lower.clone())
    }

    fn get_base_layer(&self) -> (r: Result<Vec<u8>, LayerError>) {
        Ok(self.base.clone())
    }

    fn destroy(&self, mounted: bool) -> (r: Result<Vec<FsOp>, LayerError>) {
        if mounted {
            return Err(LayerError::AlreadyMounted);
        }
        let mut ops: Vec<FsOp> = Vec::new();
        ops.push(FsOp::RemoveTree(self.inst.clone()));
        assert(op_views(ops@) =~= destroy_spec(self@));
        Ok(ops)
    }
}

/// The overlay manager of instance `inst_name` in the current workspace.  Fails
/// with `InvalidName` when the name is empty, holds a separator, or is `.` or `..`.
pub fn get_overlayfs_manager(inst_name: &[u8]) -> (r: Result<OverlayFS, LayerError>)
    ensures
        r is Ok <==> valid_instance_name(inst_name@),
        r matches Err(e) ==> e == LayerError::InvalidName,
        r matches Ok(m) ==> m@ == layout_spec(dist_dir(), instances_dir(), inst_name@),
{
    let dist: Vec<u8> = vec![100u8, 105u8, 115u8, 116u8];
    let insts: Vec<u8> = vec![105u8, 110u8, 115u8, 116u8, 97u8, 110u8, 99u8, 101u8, 115u8];
    OverlayFS::from_inst_dir(dist.as_slice(), insts.as_slice(), inst_name)
}

/// What creating the directory of a new instance `inst_name` under `inst_path`
/// performs.  Fails with `InvalidName` when the name is empty, holds a separator,
/// or is `.` or `..`.
pub fn create_new_instance_fs(inst_path: &[u8], inst_name: &[u8]) -> (r: Result<Vec<FsOp>, LayerError>)
    ensures
        r is Ok <==> valid_instance_name(inst_name@),
        r matches Err(e) ==> e == LayerError::InvalidName,
        r matches Ok(ops) ==> op_views(ops@) == seq![FsOpView::CreateDirAll(join_spec(inst_path@, inst_name@))],
{
    if !is_valid_instance_name(inst_name) {
        return Err(LayerError::InvalidName);
    }
    let mut ops: Vec<FsOp> = Vec::new();
    ops.push(FsOp::CreateDirAll(join_path(inst_path, inst_name)));
    assert(op_views(ops@) =~= seq![FsOpView::CreateDirAll(join_spec(inst_path@, inst_name@))]);
    Ok(ops)
}

} // verus!
