//! The instance registry: which instances a workspace holds, and their live state.

use vstd::prelude::*;
use crate::error::LayerError;
use crate::manager::{dist_dir, get_overlayfs_manager, instances_dir};
use crate::overlay::{OverlayFS, layout_spec, overlay_type, valid_instance_name};
use crate::path::{bytes_eq, join_path, join_spec};
use crate::probe::{MountRow, mounted_in, mountinfo_rows, parse_mountinfo, probe_spec, row_views};

verus! {

/// An entry of the instances directory.
#[derive(Clone, Debug)]
pub struct InstanceDir {
    /// The entry's name.
    pub name: Vec<u8>,
    /// Whether the entry holds a well-formed `layers` directory.
    pub well_formed: bool,
}

/// A machine that the container runtime reports.
#[derive(Clone, Debug)]
pub struct MachineRecord {
    pub name: Vec<u8>,
    /// Whether the machine reached its multi-user state.
    pub booted: bool,
}

/// The live state of one instance.
#[derive(Clone, Debug)]
pub struct InstanceInfo {
    pub name: Vec<u8>,
    pub mounted: bool,
    pub active: bool,
    pub booted: bool,
}

/// The mathematical content of an [`InstanceInfo`].
pub struct InstanceInfoView {
    pub name: Seq<u8>,
    pub mounted: bool,
    pub active: bool,
    pub booted: bool,
}

impl View for InstanceInfo {
    type V = InstanceInfoView;

    open spec fn view(&self) -> InstanceInfoView {
        InstanceInfoView {
            name: self.name@,
            mounted: self.mounted,
            active: self.active,
            booted: self.booted,
        }
    }
}

/// The views of a list of instances.
pub open spec fn info_views(s: Seq<InstanceInfo>) -> Seq<InstanceInfoView> {
    s.map_values(|i: InstanceInfo| i@)
}

/// Where instance `name` of the workspace at `workspace` is mounted.
pub open spec fn mount_point_spec(workspace: Seq<u8>, name: Seq<u8>) -> Seq<u8> {
    join_spec(workspace, name)
}

/// Whether the runtime reports a machine named `name`.
pub open spec fn active_spec(machines: Seq<MachineRecord>, name: Seq<u8>) -> bool {
    exists|i: int| 0 <= i < machines.len() && (#[trigger] machines[i]).name@ == name
}

/// Whether the runtime reports a machine named `name` that has booted.
pub open spec fn booted_spec(machines: Seq<MachineRecord>, name: Seq<u8>) -> bool {
    exists|i: int| 0 <= i < machines.len() && (#[trigger] machines[i]).name@ == name && machines[i].booted
}

/// The live state of instance `name`, or the failure of reading the mount table.
pub open spec fn info_spec(
    workspace: Seq<u8>,
    rows: Seq<Option<(Seq<u8>, Seq<u8>)>>,
    machines: Seq<MachineRecord>,
    name: Seq<u8>,
) -> Result<InstanceInfoView, LayerError> {
    match probe_spec(rows, mount_point_spec(workspace, name), overlay_type()) {
        Ok(m) => Ok(
            InstanceInfoView {
                name,
                mounted: m,
                active: active_spec(machines, name),
                booted: booted_spec(machines, name),
            },
        ),
        Err(e) => Err(e),
    }
}

/// The live state of each well-formed entry of `dirs`, in order.
pub open spec fn list_spec(
    workspace: Seq<u8>,
    rows: Seq<Option<(Seq<u8>, Seq<u8>)>>,
    machines: Seq<MachineRecord>,
    dirs: Seq<InstanceDir>,
) -> Result<Seq<InstanceInfoView>, LayerError>
    decreases dirs.len(),
{
    if dirs.len() == 0 {
        Ok(Seq::empty())
    } else {
        match list_spec(workspace, rows, machines, dirs.drop_last()) {
            Ok(infos) => if dirs.last().well_formed {
                match info_spec(workspace, rows, machines, dirs.last().name@) {
                    Ok(info) => Ok(infos.push(info)),
                    Err(e) => Err(e),
                }
            } else {
                Ok(infos)
            },
            Err(e) => Err(e),
        }
    }
}

fn machine_state(machines: &Vec<MachineRecord>, name: &[u8]) -> (r: (bool, bool))
    ensures
        r.0 == active_spec(machines@, name@),
        r.1 == booted_spec(machines@, name@),
{
    let mut active = false;
    let mut booted = false;
    let mut i: usize = 0;
    while i < machines.len()
        invariant
            0 <= i <= machines@.len(),
            active == exists|j: int| 0 <= j < i && (#[trigger] machines@[j]).name@ == name@,
            booted == exists|j: int|
                0 <= j < i && (#[trigger] machines@[j]).name@ == name@ && machines@[j].booted,
        decreases machines@.len() - i,
    {
        if bytes_eq(machines[i].name.as_slice(), name) {
            active = true;
            if machines[i].booted {
                booted = true;
            }
        }
        i = i + 1;
    }
    (active, booted)
}

proof fn lemma_list_fails_on(
    workspace: Seq<u8>,
    rows: Seq<Option<(Seq<u8>, Seq<u8>)>>,
    machines: Seq<MachineRecord>,
    dirs: Seq<InstanceDir>,
    n: int,
)
    requires
        0 <= n <= dirs.len(),
        list_spec(workspace, rows, machines, dirs.subrange(0, n)) is Err,
    ensures
        list_spec(workspace, rows, machines, dirs) == list_spec(workspace, rows, machines, dirs.subrange(0, n)),
    decreases dirs.len(),
{
    if n < dirs.len() {
        assert(dirs.drop_last().subrange(0, n) == dirs.subrange(0, n));
        lemma_list_fails_on(workspace, rows, machines, dirs.drop_last(), n);
    } else {
        assert(dirs.subrange(0, n) == dirs);
    }
}

/// The live state of each well-formed instance directory of the workspace at
/// `workspace`, in the order of `dirs`: mounted when the mount table `mountinfo`
/// shows an overlay at its mount point, active and booted as `machines` report.
/// Fails with the probe's failure.
pub fn list_instances(
    workspace: &[u8],
    dirs: &Vec<InstanceDir>,
    mountinfo: &[u8],
    machines: &Vec<MachineRecord>,
) -> (r: Result<Vec<InstanceInfo>, LayerError>)
    ensures
        match r {
            Ok(infos) => list_spec(workspace@, mountinfo_rows(mountinfo@), machines@, dirs@) == Ok::<
                Seq<InstanceInfoView>,
                LayerError,
            >(info_views(infos@)),
            Err(e) => list_spec(workspace@, mountinfo_rows(mountinfo@), machines@, dirs@) == Err::<
                Seq<InstanceInfoView>,
                LayerError,
            >(e),
        },
{
    let rows: Vec<Option<MountRow>> = parse_mountinfo(mountinfo);
    let fs_type: Vec<u8> = vec![111u8, 118u8, 101u8, 114u8, 108u8, 97u8, 121u8];
    let ghost rv = mountinfo_rows(mountinfo@);
    let mut infos: Vec<InstanceInfo> = Vec::new();
    let mut i: usize = 0;
    assert(dirs@.subrange(0, 0) =~= Seq::<InstanceDir>::empty());
    assert(info_views(infos@) =~= Seq::<InstanceInfoView>::empty());
    while i < dirs.len()
        invariant
            0 <= i <= dirs@.len(),
            row_views(rows@) == rv,
            rv == mountinfo_rows(mountinfo@),
            fs_type@ == overlay_type(),
            list_spec(workspace@, rv, machines@, dirs@.subrange(0, i as int)) == Ok::<
                Seq<InstanceInfoView>,
                LayerError,
            >(info_views(infos@)),
        decreases dirs@.len() - i,
    {
        let ghost next = dirs@.subrange(0, i + 1);
        assert(next.drop_last() == dirs@.subrange(0, i as int));
        assert(next.last() == dirs@[i as int]);
        if dirs[i].well_formed {
            let mp = join_path(workspace, dirs[i].name.as_slice());
            match mounted_in(&rows, mp.as_slice(), fs_type.as_slice()) {
                Ok(m) => {
                    let (active, booted) = machine_state(machines, dirs[i].name.as_slice());
                    let info = InstanceInfo { name: dirs[i].name.clone(), mounted: m, active, booted };
                    let ghost before = infos@;
                    infos.push(info);
                    assert(info_views(infos@) =~= info_views(before).push(info@));
                },
                Err(e) => {
                    proof {
                        lemma_list_fails_on(workspace@, rv, machines@, dirs@, i + 1);
                    }
                    return Err(e);
                },
            }
        }
        i = i + 1;
    }
    assert(dirs@.subrange(0, dirs@.len() as int) == dirs@);
    Ok(infos)
}

/// The manager of instance `name` of the current workspace; `exists` tells
/// whether its directory exists.  Fails with `InvalidName` on a name that is empty,
/// holds a separator, or is `.` or `..`, else with `UnknownInstance` when the
/// directory is missing.
pub fn resolve_instance(name: &[u8], exists: bool) -> (r: Result<OverlayFS, LayerError>)
    ensures
        !valid_instance_name(name@) ==> (r matches Err(e) && e == LayerError::InvalidName),
        valid_instance_name(name@) && !exists ==> (r matches Err(e) && e == LayerError::UnknownInstance),
        valid_instance_name(name@) && exists ==> (r matches Ok(m) && m@ == layout_spec(
            dist_dir(),
            instances_dir(),
            name@,
        )),
{
    match get_overlayfs_manager(name) {
        Err(e) => Err(e),
        Ok(m) => if exists {
            Ok(m)
        } else {
            Err(LayerError::UnknownInstance)
        },
    }
}

/// Whether the shared base layer may change now: no instance of `infos` is
/// mounted.  Fails with `Busy` otherwise.
pub fn check_base_unused(infos: &Vec<InstanceInfo>) -> (r: Result<(), LayerError>)
    ensures
        (r is Ok) <==> forall|i: int| 0 <= i < infos@.len() ==> !(#[trigger] infos@[i]).mounted,
        r matches Err(e) ==> e == LayerError::Busy,
{
    let mut i: usize = 0;
    while i < infos.len()
        invariant
            0 <= i <= infos@.len(),
            forall|j: int| 0 <= j < i ==> !(#[trigger] infos@[j]).mounted,
        decreases infos@.len() - i,
    {
        if infos[i].mounted {
            return Err(LayerError::Busy);
        }
        i = i + 1;
    }
    Ok(())
}

} // verus!
