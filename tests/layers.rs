use ciel::diff::{classify, diff, redirect_source, Diff, EntryKind, UpperEntry};
use ciel::error::LayerError;
use ciel::lifecycle::{
    check_commit, check_rollback, observe, stop_step, transition, Action, InstanceState, StopStep, Trigger,
};
use ciel::manager::{create_new_instance_fs, get_overlayfs_manager, LayerManager};
use ciel::overlay::{FsOp, OverlayFS};
use ciel::path::{has_prefix, join_path, strip_path_prefix};
use ciel::probe::is_mounted;
use ciel::registry::{check_base_unused, list_instances, resolve_instance, InstanceDir, MachineRecord};
use ciel::workspace::{get_output_dir, list_helpers, HelperFile};

fn b(s: &str) -> Vec<u8> {
    s.as_bytes().to_vec()
}

fn layers() -> OverlayFS {
    OverlayFS::from_inst_dir(b"/w/dist", b"/w/instances", b"i").unwrap()
}

fn upper() -> Vec<u8> {
    b("/w/instances/i/layers/diff")
}

fn entry(rel: &str, kind: EntryKind, lower_is_dir: bool) -> UpperEntry {
    UpperEntry {
        path: b(&format!("/w/instances/i/layers/diff/{}", rel)),
        kind,
        opaque: None,
        redirect: None,
        lower_is_dir,
    }
}

fn paths(d: &Diff) -> (&'static str, Vec<Vec<u8>>) {
    match d {
        Diff::Symlink(p) => ("Symlink", vec![p.clone()]),
        Diff::OverrideDir(p) => ("OverrideDir", vec![p.clone()]),
        Diff::RenamedDir(f, t) => ("RenamedDir", vec![f.clone(), t.clone()]),
        Diff::NewDir(p) => ("NewDir", vec![p.clone()]),
        Diff::ModifiedDir(p) => ("ModifiedDir", vec![p.clone()]),
        Diff::WhiteoutFile(p) => ("WhiteoutFile", vec![p.clone()]),
        Diff::File(p) => ("File", vec![p.clone()]),
    }
}

fn op(o: &FsOp) -> (&'static str, Vec<Vec<u8>>) {
    match o {
        FsOp::Move { from, to } => ("Move", vec![from.clone(), to.clone()]),
        FsOp::MoveFile { from, to } => ("MoveFile", vec![from.clone(), to.clone()]),
        FsOp::ReplaceDir { from, to } => ("ReplaceDir", vec![from.clone(), to.clone()]),
        FsOp::CreateDir(p) => ("CreateDir", vec![p.clone()]),
        FsOp::CreateDirAll(p) => ("CreateDirAll", vec![p.clone()]),
        FsOp::SyncMode { from, to } => ("SyncMode", vec![from.clone(), to.clone()]),
        FsOp::CreateDirFrom { from, to } => ("CreateDirFrom", vec![from.clone(), to.clone()]),
        FsOp::Remove(p) => ("Remove", vec![p.clone()]),
        FsOp::RemoveTree(p) => ("RemoveTree", vec![p.clone()]),
    }
}

#[test]
fn layout_of_an_instance() {
    let l = layers();
    assert_eq!(l.inst, b("/w/instances/i"));
    assert_eq!(l.base, b("/w/dist"));
    assert_eq!(l.lower, b("/w/instances/i/layers/local"));
    assert_eq!(l.upper, b("/w/instances/i/layers/diff"));
    assert_eq!(l.work, b("/w/instances/i/layers/diff.tmp"));
    assert_eq!(l.get_config_layer().unwrap(), b("/w/instances/i/layers/local"));
    assert_eq!(l.get_base_layer().unwrap(), b("/w/dist"));
    assert_eq!(OverlayFS::name(), "overlay".to_string());
}

#[test]
fn invalid_instance_names() {
    assert_eq!(OverlayFS::from_inst_dir(b"d", b"x", b"").err(), Some(LayerError::InvalidName));
    assert_eq!(OverlayFS::from_inst_dir(b"d", b"x", b"a/b").err(), Some(LayerError::InvalidName));
    assert_eq!(get_overlayfs_manager(b"").err(), Some(LayerError::InvalidName));
    assert_eq!(create_new_instance_fs(b"x", b"/").err(), Some(LayerError::InvalidName));
    assert_eq!(get_overlayfs_manager(b".").err(), Some(LayerError::InvalidName));
    assert_eq!(get_overlayfs_manager(b"..").err(), Some(LayerError::InvalidName));
    assert!(get_overlayfs_manager(b"...").is_ok());
    assert!(get_overlayfs_manager(b".a").is_ok());
}

#[test]
fn workspace_manager_paths() {
    let l = get_overlayfs_manager(b"build").unwrap();
    assert_eq!(l.base, b("dist"));
    assert_eq!(l.lower, b("instances/build/layers/local"));
    let ops = create_new_instance_fs(b"instances", b"build").unwrap();
    assert_eq!(ops.iter().map(op).collect::<Vec<_>>(), vec![("CreateDirAll", vec![b("instances/build")])]);
}

#[test]
fn new_file_commit_in_existing_dir() {
    let l = layers();
    let entries = vec![entry("etc", EntryKind::Directory, true), entry("etc/hello", EntryKind::Other, false)];
    let ds = diff(&upper(), &entries).unwrap();
    assert_eq!(
        ds.iter().map(paths).collect::<Vec<_>>(),
        vec![("ModifiedDir", vec![b("etc")]), ("File", vec![b("etc/hello")])]
    );
    let ops = l.commit(false, &entries).unwrap();
    assert_eq!(
        ops.iter().map(op).collect::<Vec<_>>(),
        vec![
            ("SyncMode", vec![b("/w/instances/i/layers/diff/etc"), b("/w/instances/i/layers/local/etc")]),
            (
                "MoveFile",
                vec![b("/w/instances/i/layers/diff/etc/hello"), b("/w/instances/i/layers/local/etc/hello")]
            ),
        ]
    );
}

#[test]
fn new_file_commit_in_new_dir() {
    let l = layers();
    let entries = vec![entry("etc", EntryKind::Directory, false), entry("etc/hello", EntryKind::Other, false)];
    let ds = diff(&upper(), &entries).unwrap();
    assert_eq!(
        ds.iter().map(paths).collect::<Vec<_>>(),
        vec![("NewDir", vec![b("etc")]), ("File", vec![b("etc/hello")])]
    );
    let ops = l.commit(false, &entries).unwrap();
    assert_eq!(op(&ops[0]), ("CreateDir", vec![b("/w/instances/i/layers/local/etc")]));
}

#[test]
fn whiteout_removes_from_lower() {
    let l = layers();
    let entries = vec![
        entry("usr", EntryKind::Directory, true),
        entry("usr/bin", EntryKind::Directory, true),
        entry("usr/bin/foo", EntryKind::CharDevice(0), false),
    ];
    let ds = diff(&upper(), &entries).unwrap();
    assert_eq!(paths(&ds[2]), ("WhiteoutFile", vec![b("usr/bin/foo")]));
    let ops = l.commit(false, &entries).unwrap();
    assert_eq!(op(&ops[2]), ("Remove", vec![b("/w/instances/i/layers/local/usr/bin/foo")]));
}

#[test]
fn opaque_directory_precedes_its_child() {
    let l = layers();
    let mut pkg = entry("var/cache/pkg", EntryKind::Directory, true);
    pkg.opaque = Some(b("y"));
    let entries = vec![
        entry("var", EntryKind::Directory, true),
        entry("var/cache", EntryKind::Directory, true),
        pkg,
        entry("var/cache/pkg/new", EntryKind::Other, false),
    ];
    let ds = diff(&upper(), &entries).unwrap();
    assert_eq!(paths(&ds[2]), ("OverrideDir", vec![b("var/cache/pkg")]));
    assert_eq!(paths(&ds[3]), ("File", vec![b("var/cache/pkg/new")]));
    let ops = l.commit(false, &entries).unwrap();
    assert_eq!(
        op(&ops[2]),
        (
            "ReplaceDir",
            vec![b("/w/instances/i/layers/diff/var/cache/pkg"), b("/w/instances/i/layers/local/var/cache/pkg")]
        )
    );
}

#[test]
fn directory_below_opaque_directory_is_made_again() {
    let l = layers();
    let mut pkg = entry("var/pkg", EntryKind::Directory, true);
    pkg.opaque = Some(b("y"));
    let entries = vec![
        entry("var", EntryKind::Directory, true),
        pkg,
        entry("var/pkg/sub", EntryKind::Directory, true),
        entry("var/pkgx", EntryKind::Directory, true),
    ];
    let ds = diff(&upper(), &entries).unwrap();
    assert_eq!(paths(&ds[0]), ("ModifiedDir", vec![b("var")]));
    assert_eq!(paths(&ds[2]), ("ModifiedDir", vec![b("var/pkg/sub")]));
    assert_eq!(paths(&ds[3]), ("ModifiedDir", vec![b("var/pkgx")]));
    let ops = l.commit(false, &entries).unwrap();
    assert_eq!(
        op(&ops[2]),
        (
            "CreateDirFrom",
            vec![b("/w/instances/i/layers/diff/var/pkg/sub"), b("/w/instances/i/layers/local/var/pkg/sub")]
        )
    );
    assert_eq!(
        op(&ops[3]),
        ("SyncMode", vec![b("/w/instances/i/layers/diff/var/pkgx"), b("/w/instances/i/layers/local/var/pkgx")])
    );
    let skeleton = l.create_layers();
    assert_eq!(skeleton.len(), 3);
    assert_eq!(op(&skeleton[2]), ("CreateDirAll", vec![b("/w/instances/i/layers/local")]));
}

#[test]
fn opaque_other_than_y_is_not_opaque() {
    let mut e = entry("d", EntryKind::Directory, true);
    e.opaque = Some(b("n"));
    assert_eq!(paths(&classify(&upper(), &e).unwrap()), ("ModifiedDir", vec![b("d")]));
}

#[test]
fn rollback_empties_upper_and_work() {
    let l = layers();
    let ops = l.rollback(false).unwrap();
    assert_eq!(
        ops.iter().map(op).collect::<Vec<_>>(),
        vec![
            ("RemoveTree", vec![b("/w/instances/i/layers/diff")]),
            ("RemoveTree", vec![b("/w/instances/i/layers/diff.tmp")]),
            ("CreateDir", vec![b("/w/instances/i/layers/diff")]),
            ("CreateDir", vec![b("/w/instances/i/layers/diff.tmp")]),
        ]
    );
    assert_eq!(l.rollback(true).err(), Some(LayerError::AlreadyMounted));
}

#[test]
fn commit_while_mounted_is_refused() {
    let l = layers();
    let entries = vec![entry("etc", EntryKind::Directory, true)];
    assert_eq!(l.commit(true, &entries).err(), Some(LayerError::AlreadyMounted));
    assert_eq!(check_commit(true, false), Err(LayerError::AlreadyMounted));
    assert_eq!(check_commit(false, true), Err(LayerError::Busy));
    assert_eq!(check_commit(false, false), Ok(()));
    assert_eq!(check_rollback(true), Err(LayerError::Busy));
    assert_eq!(check_rollback(false), Ok(()));
}

#[test]
fn destroy_removes_instance_directory() {
    let l = layers();
    let ops = l.destroy(false).unwrap();
    assert_eq!(ops.iter().map(op).collect::<Vec<_>>(), vec![("RemoveTree", vec![b("/w/instances/i")])]);
    assert_eq!(l.destroy(true).err(), Some(LayerError::AlreadyMounted));
    let dirs = vec![InstanceDir { name: b("other"), well_formed: true }];
    let infos = list_instances(b"/w", &dirs, b"", &vec![]).unwrap();
    assert_eq!(infos.len(), 1);
    assert_eq!(infos[0].name, b("other"));
}

#[test]
fn empty_upper_gives_nothing() {
    let l = layers();
    assert!(diff(&upper(), &vec![]).unwrap().is_empty());
    assert!(l.commit(false, &vec![]).unwrap().is_empty());
}

#[test]
fn one_record_per_entry() {
    let entries = vec![
        entry("a", EntryKind::Directory, false),
        entry("a/l", EntryKind::Symlink, false),
        entry("a/f", EntryKind::Other, false),
    ];
    let ds = diff(&upper(), &entries).unwrap();
    assert_eq!(ds.len(), 3);
    assert_eq!(paths(&ds[1]), ("Symlink", vec![b("/w/instances/i/layers/diff/a/l")]));
    let ops = layers().plan_commit(&ds).unwrap();
    assert_eq!(
        op(&ops[1]),
        ("Move", vec![b("/w/instances/i/layers/diff/a/l"), b("/w/instances/i/layers/local/a/l")])
    );
}

#[test]
fn redirect_to_root_is_empty() {
    let mut e = entry("moved", EntryKind::Directory, false);
    e.redirect = Some(b("/"));
    assert_eq!(paths(&classify(&upper(), &e).unwrap()), ("RenamedDir", vec![b(""), b("moved")]));
    assert_eq!(redirect_source(b"a/b", b"/x/y"), Some(b("x/y")));
}

#[test]
fn redirect_relative_resolution() {
    assert_eq!(redirect_source(b"a/c", b"b"), Some(b("a/b")));
    assert_eq!(redirect_source(b"a/c", b"../b"), Some(b("b")));
    assert_eq!(redirect_source(b"a/c", b"./x/../y"), Some(b("a/y")));
    assert_eq!(redirect_source(b"a", b"../x"), None);
    assert_eq!(redirect_source(b"a/c", b"../../x"), None);
    assert_eq!(redirect_source(b"a", b""), None);
    let mut e = entry("a", EntryKind::Directory, false);
    e.redirect = Some(b("../x"));
    assert_eq!(classify(&upper(), &e).err(), Some(LayerError::ParseError));
    let l = layers();
    let mut e = entry("a/c", EntryKind::Directory, false);
    e.redirect = Some(b("../b"));
    let ops = l.commit(false, &vec![e]).unwrap();
    assert_eq!(
        op(&ops[0]),
        ("Move", vec![b("/w/instances/i/layers/local/b"), b("/w/instances/i/layers/local/a/c")])
    );
}

#[test]
fn nonzero_char_device_is_a_file() {
    let e = entry("dev/null", EntryKind::CharDevice(259), false);
    assert_eq!(paths(&classify(&upper(), &e).unwrap()), ("File", vec![b("dev/null")]));
}

#[test]
fn entry_outside_upper_is_refused() {
    let e = UpperEntry {
        path: b("/elsewhere/x"),
        kind: EntryKind::Other,
        opaque: None,
        redirect: None,
        lower_is_dir: false,
    };
    assert_eq!(classify(&upper(), &e).err(), Some(LayerError::ParseError));
    let l = layers();
    let ds = vec![Diff::Symlink(b("/w/instances/i/layers/diffx/l"))];
    assert_eq!(l.plan_commit(&ds).err(), Some(LayerError::ParseError));
}

#[test]
fn lower_path_of_upper_entry() {
    let l = layers();
    assert_eq!(l.lower_path_of(b"/w/instances/i/layers/diff/etc"), Some(b("/w/instances/i/layers/local/etc")));
    assert_eq!(l.lower_path_of(b"/w/instances/i/layers/diffx"), None);
}

#[test]
fn mount_plan_stacks_layers() {
    let l = layers();
    let p = l.mount(b"/w/i", false).unwrap();
    assert_eq!(p.lowerdirs, vec![b("/w/instances/i/layers/local"), b("/w/dist")]);
    assert_eq!(p.upperdir, b("/w/instances/i/layers/diff"));
    assert_eq!(p.workdir, b("/w/instances/i/layers/diff.tmp"));
    assert_eq!(p.target, b("/w/i"));
    assert_eq!(p.prepare.len(), 3);
    assert_eq!(l.mount(b"/w/i", true).err(), Some(LayerError::AlreadyMounted));
    assert_eq!(l.unmount(b"/w/i", true), Ok(b("/w/i")));
    assert_eq!(l.unmount(b"/w/i", false), Err(LayerError::NotMounted));
}

const MOUNTINFO: &str = "22 1 8:1 / / rw,relatime shared:1 - ext4 /dev/sda1 rw\n\
100 22 0:50 / /w/i rw,relatime shared:2 - overlay overlay rw,lowerdir=/a:/b\n\
101 22 0:51 / /w/with\\040space rw - overlay overlay rw\n";

#[test]
fn probe_reads_mount_table() {
    let l = layers();
    assert_eq!(is_mounted(MOUNTINFO.as_bytes(), b"/w/i", b"overlay"), Ok(true));
    assert_eq!(is_mounted(MOUNTINFO.as_bytes(), b"/", b"overlay"), Ok(false));
    assert_eq!(is_mounted(MOUNTINFO.as_bytes(), b"/", b"ext4"), Ok(true));
    assert_eq!(is_mounted(MOUNTINFO.as_bytes(), b"/w/with space", b"overlay"), Ok(true));
    assert_eq!(l.is_mounted(MOUNTINFO.as_bytes(), b"/w/i"), Ok(true));
    assert_eq!(l.is_mounted(MOUNTINFO.as_bytes(), b"/w/j"), Ok(false));
    assert_eq!(l.is_mounted(b"garbage\n", b"/w/i"), Err(LayerError::ParseError));
    let broken = format!("{}garbage\n", MOUNTINFO);
    assert_eq!(l.is_mounted(broken.as_bytes(), b"/w/i"), Err(LayerError::ParseError));
}

#[test]
fn registry_lists_well_formed_instances() {
    let dirs = vec![
        InstanceDir { name: b("i"), well_formed: true },
        InstanceDir { name: b("junk"), well_formed: false },
        InstanceDir { name: b("j"), well_formed: true },
    ];
    let machines = vec![MachineRecord { name: b("i"), booted: true }];
    let infos = list_instances(b"/w", &dirs, MOUNTINFO.as_bytes(), &machines).unwrap();
    assert_eq!(infos.len(), 2);
    assert_eq!((infos[0].mounted, infos[0].active, infos[0].booted), (true, true, true));
    assert_eq!(infos[1].name, b("j"));
    assert_eq!((infos[1].mounted, infos[1].active, infos[1].booted), (false, false, false));
    assert_eq!(check_base_unused(&infos), Err(LayerError::Busy));
    assert_eq!(check_base_unused(&vec![infos[1].clone()]), Ok(()));
    assert_eq!(resolve_instance(b"i", false).err(), Some(LayerError::UnknownInstance));
    assert_eq!(resolve_instance(b"a/b", true).err(), Some(LayerError::InvalidName));
    assert_eq!(resolve_instance(b"i", true).unwrap().upper, b("instances/i/layers/diff"));
}

#[test]
fn lifecycle_transitions() {
    assert_eq!(observe(false, false, false), InstanceState::Absent);
    assert_eq!(observe(true, true, true), InstanceState::Running);
    assert_eq!(observe(true, true, false), InstanceState::Mounted);
    assert_eq!(observe(true, false, false), InstanceState::Defined);
    let t = transition(InstanceState::Mounted, Trigger::Commit).unwrap();
    assert_eq!(t.to, InstanceState::Mounted);
    assert_eq!(t.actions, vec![Action::UnmountLayers, Action::CommitLayers, Action::MountLayers]);
    let t = transition(InstanceState::Absent, Trigger::Add).unwrap();
    assert_eq!((t.to, t.actions), (InstanceState::Defined, vec![Action::CreateInstance]));
    let t = transition(InstanceState::Running, Trigger::Down).unwrap();
    assert_eq!((t.to, t.actions), (InstanceState::Defined, vec![Action::StopContainer, Action::UnmountLayers]));
    let t = transition(InstanceState::Defined, Trigger::Remove).unwrap();
    assert_eq!((t.to, t.actions), (InstanceState::Absent, vec![Action::DestroyLayers]));
    assert_eq!(transition(InstanceState::Running, Trigger::Commit).err(), Some(LayerError::Busy));
    assert_eq!(transition(InstanceState::Mounted, Trigger::Mount).err(), Some(LayerError::AlreadyMounted));
    assert_eq!(transition(InstanceState::Absent, Trigger::Mount).err(), Some(LayerError::UnknownInstance));
    assert_eq!(transition(InstanceState::Defined, Trigger::Add).err(), Some(LayerError::InstanceExists));
    assert_eq!(transition(InstanceState::Defined, Trigger::Down).err(), Some(LayerError::NotMounted));
}

#[test]
fn path_helpers() {
    assert_eq!(strip_path_prefix(b"/a/b/c", b"/a/b"), Some(b("c")));
    assert_eq!(strip_path_prefix(b"/a/bc", b"/a/b"), None);
    assert_eq!(strip_path_prefix(b"/a/b", b"/a/b"), Some(b("")));
    assert_eq!(strip_path_prefix(b"/a/b", b"/a/"), Some(b("b")));
    assert_eq!(join_path(b"/a", b"b"), b("/a/b"));
    assert_eq!(join_path(b"/a/", b"b"), b("/a/b"));
    assert_eq!(join_path(b"/a", b""), b("/a"));
    assert!(has_prefix(&b("/a/b"), &vec![b("/x"), b("/a")]));
    assert!(!has_prefix(&b("/ab"), &vec![b("/a")]));
    assert!(has_prefix(&b("/a"), &vec![b("/a/")]));
    assert!(has_prefix(&b("/a//b/"), &vec![b("/a/b")]));
    assert!(has_prefix(&b("/a"), &vec![b("")]));
    assert!(has_prefix(&b("/a"), &vec![b("/")]));
    assert!(!has_prefix(&b("a"), &vec![b("/")]));
    assert!(!has_prefix(&b("/a"), &vec![b("a")]));
    assert!(!has_prefix(&b("/a"), &vec![]));
    assert!(has_prefix(&b("/a/./b"), &vec![b("/a/b")]));
    assert!(has_prefix(&b("/a/b/."), &vec![b("/a/b")]));
    assert!(has_prefix(&b("/./a"), &vec![b("/a")]));
    assert!(!has_prefix(&b("./a"), &vec![b("a")]));
    assert!(has_prefix(&b("./a"), &vec![b("./")]));
    assert!(!has_prefix(&b("a/../b"), &vec![b("b")]));
}

#[test]
fn output_directory() {
    assert_eq!(get_output_dir(None), b("OUTPUT"));
    assert_eq!(get_output_dir(Some(b("OUTPUT-stable"))), b("OUTPUT-stable"));
}

#[test]
fn helper_commands_from_plugin_files() {
    let files = vec![
        HelperFile { name: b("ciel-release"), is_file: true },
        HelperFile { name: b("ciel-dir"), is_file: false },
        HelperFile { name: b("other"), is_file: true },
        HelperFile { name: b("ciel"), is_file: true },
        HelperFile { name: b("ciel-"), is_file: true },
    ];
    assert_eq!(list_helpers(&files), vec![b("ciel-release"), b("ciel-")]);
}

#[test]
fn stopping_waits_then_kills() {
    assert_eq!(stop_step(false, 0), StopStep::Done);
    assert_eq!(stop_step(false, 100), StopStep::Done);
    assert_eq!(stop_step(true, 0), StopStep::Wait);
    assert_eq!(stop_step(true, 29), StopStep::Wait);
    assert_eq!(stop_step(true, 30), StopStep::Kill);
}
