//! Laws that relate the diff engine, the commit plan and the lifecycle.

use vstd::prelude::*;
use crate::diff::{
    DiffView, EntryKind, UpperEntryView, below_override, classify_spec, diff_spec, opaque_marker, redirect_source_spec,
};
use crate::registry::{InstanceDir, InstanceInfoView, MachineRecord, list_spec};
use crate::error::LayerError;
use crate::lifecycle::{Action, InstanceState, Trigger, action_spec, live_flags, run_spec, transition_spec};
use crate::manager::overlay_mount_spec;
use crate::overlay::{FsOpView, OverlayView, commit_spec, plan_spec, record_op_spec, rollback_spec};
use crate::path::{
    SEP, clean_segments, is_current, is_parent, join_segments, join_spec, resolve_spec, segments, split_state,
    step_spec, strip_prefix_spec,
};

verus! {

/// The diff emits exactly one record for each entry of the upper layer: the
/// record at each position is the classification of the entry at that position.
pub proof fn lemma_one_record_per_entry(upper: Seq<u8>, entries: Seq<UpperEntryView>, ds: Seq<DiffView>)
    requires
        diff_spec(upper, entries) == Ok::<Seq<DiffView>, LayerError>(ds),
    ensures
        ds.len() == entries.len(),
        forall|i: int|
            0 <= i < entries.len() ==> classify_spec(upper, #[trigger] entries[i]) == Ok::<
                DiffView,
                LayerError,
            >(ds[i]),
    decreases entries.len(),
{
    if entries.len() > 0 {
        let prev = ds.drop_last();
        if let Ok(p) = diff_spec(upper, entries.drop_last()) {
            assert(p == prev);
        }
        lemma_one_record_per_entry(upper, entries.drop_last(), prev);
        assert forall|i: int| 0 <= i < entries.len() implies classify_spec(
            upper,
            #[trigger] entries[i],
        ) == Ok::<DiffView, LayerError>(ds[i]) by {
            if i < entries.len() - 1 {
                assert(entries.drop_last()[i] == entries[i]);
            }
        }
    }
}

/// Over a whole walk, each entry's record is its own classification, whatever
/// the other entries are.
pub proof fn lemma_walk_keeps_classification(
    upper: Seq<u8>,
    entries: Seq<UpperEntryView>,
    ds: Seq<DiffView>,
    i: int,
)
    requires
        diff_spec(upper, entries) == Ok::<Seq<DiffView>, LayerError>(ds),
        0 <= i < entries.len(),
    ensures
        classify_spec(upper, entries[i]) == Ok::<DiffView, LayerError>(ds[i]),
{
    lemma_one_record_per_entry(upper, entries, ds);
}

/// A commit applies exactly one operation for each change record, in order;
/// each is the record's operation after the records before it.
pub proof fn lemma_one_op_per_record(l: OverlayView, ds: Seq<DiffView>, ops: Seq<FsOpView>)
    requires
        plan_spec(l, ds) == Ok::<Seq<FsOpView>, LayerError>(ops),
    ensures
        ops.len() == ds.len(),
        forall|i: int|
            0 <= i < ds.len() ==> record_op_spec(l, #[trigger] ds[i], ds.subrange(0, i)) == Ok::<
                FsOpView,
                LayerError,
            >(ops[i]),
    decreases ds.len(),
{
    if ds.len() > 0 {
        let prev = ops.drop_last();
        if let Ok(p) = plan_spec(l, ds.drop_last()) {
            assert(p == prev);
        }
        lemma_one_op_per_record(l, ds.drop_last(), prev);
        assert forall|i: int| 0 <= i < ds.len() implies record_op_spec(
            l,
            #[trigger] ds[i],
            ds.subrange(0, i),
        ) == Ok::<FsOpView, LayerError>(ops[i]) by {
            if i < ds.len() - 1 {
                assert(ds.drop_last()[i] == ds[i]);
                assert(ds.drop_last().subrange(0, i) == ds.subrange(0, i));
            } else {
                assert(ds.drop_last() == ds.subrange(0, i));
            }
        }
    }
}

/// A directory that only changed its metadata is committed by copying its
/// permission bits, unless it lies below a directory that an earlier record marks
/// opaque: that directory's lower copy is emptied first, so it is made again with
/// the upper copy's permission bits.
pub proof fn lemma_modified_dir_op(l: OverlayView, r: Seq<u8>, prior: Seq<DiffView>)
    ensures
        !below_override(prior, r) ==> record_op_spec(l, DiffView::ModifiedDir(r), prior) == Ok::<
            FsOpView,
            LayerError,
        >(FsOpView::SyncMode { from: join_spec(l.upper, r), to: join_spec(l.lower, r) }),
        below_override(prior, r) ==> record_op_spec(l, DiffView::ModifiedDir(r), prior) == Ok::<
            FsOpView,
            LayerError,
        >(FsOpView::CreateDirFrom { from: join_spec(l.upper, r), to: join_spec(l.lower, r) }),
{
}

/// An empty upper layer gives an empty diff, and a commit of it performs nothing.
pub proof fn lemma_empty_upper(l: OverlayView)
    ensures
        diff_spec(l.upper, Seq::empty()) == Ok::<Seq<DiffView>, LayerError>(Seq::empty()),
        commit_spec(l, Seq::empty()) == Ok::<Seq<FsOpView>, LayerError>(Seq::empty()),
{
    assert(plan_spec(l, Seq::empty()) == Ok::<Seq<FsOpView>, LayerError>(Seq::empty()));
}

/// A rollback touches the upper and work layers alone: the lower and base
/// layers, and so the tree that the next mount shows below the upper layer, stay
/// as they were.  An upper layer that was clean before a commit gives a commit
/// that does nothing.
pub proof fn lemma_rollback_spares_lower_layers(l: OverlayView)
    ensures
        forall|i: int|
            0 <= i < rollback_spec(l).len() ==> match #[trigger] rollback_spec(l)[i] {
                FsOpView::RemoveTree(p) => p == l.upper || p == l.work,
                FsOpView::CreateDir(p) => p == l.upper || p == l.work,
                _ => false,
            },
        commit_spec(l, Seq::empty()) == Ok::<Seq<FsOpView>, LayerError>(Seq::empty()),
{
    lemma_empty_upper(l);
}

/// A mount stacks the upper layer over the lower layer over the base layer, and
/// prepares nothing but the instance's own three layers.
pub proof fn lemma_mount_stacks_upper_over_lower_and_base(l: OverlayView, to: Seq<u8>)
    ensures
        overlay_mount_spec(l, to).lowerdirs == seq![l.lower, l.base],
        overlay_mount_spec(l, to).upperdir == l.upper,
        overlay_mount_spec(l, to).target == to,
        forall|i: int|
            0 <= i < overlay_mount_spec(l, to).prepare.len() ==> match #[trigger] overlay_mount_spec(
                l,
                to,
            ).prepare[i] {
                FsOpView::CreateDirAll(p) => p == l.upper || p == l.work || p == l.lower,
                _ => false,
            },
{
}

/// A redirect to `/` names the union root: the source is the empty relative path.
pub proof fn lemma_redirect_to_root(rel: Seq<u8>)
    ensures
        redirect_source_spec(rel, seq![SEP]) == Some(Seq::<u8>::empty()),
{
    let r = seq![SEP];
    assert(r.drop_last() =~= Seq::<u8>::empty());
    assert(split_state(Seq::<u8>::empty()) == (Seq::<Seq<u8>>::empty(), Seq::<u8>::empty()));
    assert(split_state(r) == (seq![Seq::<u8>::empty()], Seq::<u8>::empty()));
    let segs = segments(r);
    assert(segs =~= seq![Seq::<u8>::empty(), Seq::<u8>::empty()]);
    assert(segs.drop_last() =~= seq![Seq::<u8>::empty()]);
    assert(segs.drop_last().drop_last() =~= Seq::<Seq<u8>>::empty());
    assert(is_current(Seq::<u8>::empty()));
    assert(resolve_spec(Seq::empty(), segs.drop_last().drop_last()) == Some(Seq::<Seq<u8>>::empty()));
    assert(resolve_spec(Seq::empty(), segs.drop_last()) == Some(Seq::<Seq<u8>>::empty()));
    assert(resolve_spec(Seq::empty(), segs) == Some(Seq::<Seq<u8>>::empty()));
}

/// A walk from a clean directory ends, when it succeeds, at a clean directory.
pub proof fn lemma_resolve_clean(base: Seq<Seq<u8>>, segs: Seq<Seq<u8>>)
    requires
        clean_segments(base),
    ensures
        resolve_spec(base, segs) matches Some(st) ==> clean_segments(st),
    decreases segs.len(),
{
    if segs.len() > 0 {
        lemma_resolve_clean(base, segs.drop_last());
        if let Some(st) = resolve_spec(base, segs.drop_last()) {
            let seg = segs.last();
            if !is_current(seg) && !is_parent(seg) {
                assert(step_spec(st, seg) == Some(st.push(seg)));
                assert forall|i: int| 0 <= i < st.push(seg).len() implies !is_current(
                    #[trigger] st.push(seg)[i],
                ) && !is_parent(st.push(seg)[i]) by {
                    if i < st.len() {
                        assert(st.push(seg)[i] == st[i]);
                    }
                }
            } else if is_parent(seg) && st.len() > 0 {
                assert forall|i: int| 0 <= i < st.drop_last().len() implies !is_current(
                    #[trigger] st.drop_last()[i],
                ) && !is_parent(st.drop_last()[i]) by {
                    assert(st.drop_last()[i] == st[i]);
                }
            }
        }
    }
}

/// A redirect never leads out of the upper layer: the source that it names is
/// made of segments that each name a child, none `.`, `..` or empty; a redirect
/// whose `..` segments climb above the layer's root is refused.
pub proof fn lemma_redirect_stays_inside(rel: Seq<u8>, redirect: Seq<u8>)
    ensures
        redirect_source_spec(rel, redirect) matches Some(from) ==> exists|st: Seq<Seq<u8>>|
            clean_segments(st) && #[trigger] join_segments(st) == from,
{
    lemma_resolve_clean(Seq::empty(), segments(rel));
    if redirect.len() > 0 {
        if redirect[0] == SEP {
            lemma_resolve_clean(Seq::empty(), segments(redirect));
        } else if let Some(rc) = resolve_spec(Seq::empty(), segments(rel)) {
            if rc.len() > 0 {
                assert forall|i: int| 0 <= i < rc.drop_last().len() implies !is_current(
                    #[trigger] rc.drop_last()[i],
                ) && !is_parent(rc.drop_last()[i]) by {
                    assert(rc.drop_last()[i] == rc[i]);
                }
                lemma_resolve_clean(rc.drop_last(), segments(redirect));
            }
        }
    }
}

/// A character device whose device id is not zero is no whiteout: it is a file.
pub proof fn lemma_nonzero_device_is_file(upper: Seq<u8>, e: UpperEntryView, rel: Seq<u8>)
    requires
        e.kind matches EntryKind::CharDevice(dev) && dev != 0,
        strip_prefix_spec(e.path, upper) == Some(rel),
        rel.len() > 0,
    ensures
        classify_spec(upper, e) == Ok::<DiffView, LayerError>(DiffView::File(rel)),
{
}

/// The controller never commits, rolls back or removes a mounted instance's
/// layers: from a mounted state it unmounts first; from a running one it refuses.
pub proof fn lemma_layers_unmounted_before_merge(t: Trigger)
    requires
        t == Trigger::Commit || t == Trigger::Rollback || t == Trigger::Remove,
    ensures
        transition_spec(InstanceState::Running, t) == Err::<(InstanceState, Seq<Action>), LayerError>(
            LayerError::Busy,
        ),
        t != Trigger::Remove ==> (transition_spec(InstanceState::Mounted, t) matches Ok((_, acts))
            && acts[0] == Action::UnmountLayers),
        t == Trigger::Remove ==> transition_spec(InstanceState::Mounted, t) == Err::<
            (InstanceState, Seq<Action>),
            LayerError,
        >(LayerError::AlreadyMounted),
{
}

proof fn lemma_run_short(f: (bool, bool), a: Action, b: Action, c: Action)
    ensures
        run_spec(f, seq![a]) == action_spec(f, a),
        run_spec(f, seq![a, b]) == (match action_spec(f, a) {
            Some(g) => action_spec(g, b),
            None => None,
        }),
        run_spec(f, seq![a, b, c]) == (match action_spec(f, a) {
            Some(g) => match action_spec(g, b) {
                Some(h) => action_spec(h, c),
                None => None,
            },
            None => None,
        }),
{
    assert(seq![a].drop_first() =~= Seq::<Action>::empty());
    assert(seq![a, b].drop_first() =~= seq![b]);
    assert(seq![a, b, c].drop_first() =~= seq![b, c]);
    assert(seq![b].drop_first() =~= Seq::<Action>::empty());
    assert(seq![b, c].drop_first() =~= seq![c]);
    assert(seq![c].drop_first() =~= Seq::<Action>::empty());
    assert(seq![a, b][0] == a && seq![a, b, c][0] == a && seq![b, c][0] == b && seq![b][0] == b);
    assert(seq![c][0] == c);
    if let Some(g) = action_spec(f, a) {
        assert(run_spec(g, Seq::empty()) == Some(g));
        assert(run_spec(f, seq![a, b]) == run_spec(g, seq![b]));
        assert(run_spec(f, seq![a, b, c]) == run_spec(g, seq![b, c]));
        if let Some(h) = action_spec(g, b) {
            assert(run_spec(h, Seq::empty()) == Some(h));
            assert(run_spec(g, seq![b]) == run_spec(h, Seq::empty()));
            assert(run_spec(g, seq![b, c]) == run_spec(h, seq![c]));
            if let Some(k) = action_spec(h, c) {
                assert(run_spec(k, Seq::empty()) == Some(k));
                assert(run_spec(h, seq![c]) == run_spec(k, Seq::empty()));
            } else {
                assert(run_spec(h, seq![c]) is None);
            }
        } else {
            assert(run_spec(g, seq![b]) is None);
            assert(run_spec(g, seq![b, c]) is None);
        }
    }
}

/// Every transition that the controller allows runs its steps in an allowed
/// order and leaves the live state of its target: no layer is committed, rolled
/// back or removed while mounted or while a container runs, and a container is
/// stopped before its layers are detached.
pub proof fn lemma_transitions_keep_live_state(s: InstanceState, t: Trigger)
    ensures
        transition_spec(s, t) matches Ok((to, acts)) ==> run_spec(live_flags(s), acts) == Some(
            live_flags(to),
        ),
{
    let f = live_flags(s);
    assert(run_spec(f, Seq::empty()) == Some(f));
    lemma_run_short(f, Action::UnmountLayers, Action::CommitLayers, Action::MountLayers);
    lemma_run_short(f, Action::UnmountLayers, Action::RollbackLayers, Action::MountLayers);
    lemma_run_short(f, Action::StopContainer, Action::UnmountLayers, Action::MountLayers);
    lemma_run_short(f, Action::CreateInstance, Action::CreateInstance, Action::CreateInstance);
    lemma_run_short(f, Action::MountLayers, Action::MountLayers, Action::MountLayers);
    lemma_run_short(f, Action::StartContainer, Action::StartContainer, Action::StartContainer);
    lemma_run_short(f, Action::CommitLayers, Action::CommitLayers, Action::CommitLayers);
    lemma_run_short(f, Action::RollbackLayers, Action::RollbackLayers, Action::RollbackLayers);
    lemma_run_short(f, Action::DestroyLayers, Action::DestroyLayers, Action::DestroyLayers);
}

/// Over a whole walk, the record at an entry's place is fixed by the entry: a
/// whiteout device gives `WhiteoutFile`, any other device or file gives `File`, an
/// opaque directory gives `OverrideDir`, and a directory redirected to `/` gives a
/// rename from the union root.
pub proof fn lemma_walk_records(
    upper: Seq<u8>,
    entries: Seq<UpperEntryView>,
    ds: Seq<DiffView>,
    i: int,
    rel: Seq<u8>,
)
    requires
        diff_spec(upper, entries) == Ok::<Seq<DiffView>, LayerError>(ds),
        0 <= i < entries.len(),
        strip_prefix_spec(entries[i].path, upper) == Some(rel),
        rel.len() > 0,
    ensures
        entries[i].kind == EntryKind::CharDevice(0) ==> ds[i] == DiffView::WhiteoutFile(rel),
        (entries[i].kind matches EntryKind::CharDevice(dev) && dev != 0) ==> ds[i] == DiffView::File(rel),
        entries[i].kind == EntryKind::Other ==> ds[i] == DiffView::File(rel),
        entries[i].kind == EntryKind::Directory && entries[i].opaque == Some(opaque_marker())
            ==> ds[i] == DiffView::OverrideDir(rel),
        entries[i].kind == EntryKind::Directory && entries[i].opaque != Some(opaque_marker())
            && entries[i].redirect == Some(seq![SEP]) ==> ds[i] == DiffView::RenamedDir(
            Seq::empty(),
            rel,
        ),
{
    lemma_walk_keeps_classification(upper, entries, ds, i);
    lemma_redirect_to_root(rel);
}

/// A walk that holds a directory whose relative redirect climbs out of the upper
/// layer is refused as a whole.
pub proof fn lemma_escaping_redirect_refuses_walk(
    upper: Seq<u8>,
    entries: Seq<UpperEntryView>,
    i: int,
    rel: Seq<u8>,
    redirect: Seq<u8>,
)
    requires
        0 <= i < entries.len(),
        strip_prefix_spec(entries[i].path, upper) == Some(rel),
        rel.len() > 0,
        entries[i].kind == EntryKind::Directory,
        entries[i].opaque != Some(opaque_marker()),
        entries[i].redirect == Some(redirect),
        redirect_source_spec(rel, redirect) is None,
    ensures
        diff_spec(upper, entries) is Err,
{
    if let Ok(ds) = diff_spec(upper, entries) {
        lemma_one_record_per_entry(upper, entries, ds);
        assert(classify_spec(upper, entries[i]) is Ok);
    }
}

/// Over a whole commit, one operation stands for each entry of the walk: a file
/// (or a device that is no whiteout) is moved to the same relative place in the
/// lower layer, a whiteout removes that place, and an opaque directory replaces
/// its lower copy.
pub proof fn lemma_commit_walk_places_entries(
    l: OverlayView,
    entries: Seq<UpperEntryView>,
    ops: Seq<FsOpView>,
    i: int,
    rel: Seq<u8>,
)
    requires
        commit_spec(l, entries) == Ok::<Seq<FsOpView>, LayerError>(ops),
        0 <= i < entries.len(),
        strip_prefix_spec(entries[i].path, l.upper) == Some(rel),
        rel.len() > 0,
    ensures
        ops.len() == entries.len(),
        (entries[i].kind == EntryKind::Other || (entries[i].kind matches EntryKind::CharDevice(dev)
            && dev != 0)) ==> ops[i] == (FsOpView::MoveFile {
            from: join_spec(l.upper, rel),
            to: join_spec(l.lower, rel),
        }),
        entries[i].kind == EntryKind::CharDevice(0) ==> ops[i] == FsOpView::Remove(join_spec(l.lower, rel)),
        entries[i].kind == EntryKind::Directory && entries[i].opaque == Some(opaque_marker()) ==> ops[i]
            == (FsOpView::ReplaceDir { from: join_spec(l.upper, rel), to: join_spec(l.lower, rel) }),
{
    if let Ok(ds) = diff_spec(l.upper, entries) {
        lemma_one_record_per_entry(l.upper, entries, ds);
        lemma_one_op_per_record(l, ds, ops);
        lemma_walk_records(l.upper, entries, ds, i, rel);
        assert(record_op_spec(l, ds[i], ds.subrange(0, i)) == Ok::<FsOpView, LayerError>(ops[i]));
    }
}

/// Whether a well-formed entry of `dirs` carries `name`.
pub open spec fn listed_in(dirs: Seq<InstanceDir>, name: Seq<u8>) -> bool {
    exists|j: int| 0 <= j < dirs.len() && (#[trigger] dirs[j]).well_formed && dirs[j].name@ == name
}

/// The registry lists only well-formed entries of the directory listing it is
/// given: once an instance's directory is gone, no record carries its name.
pub proof fn lemma_list_names_from_listing(
    workspace: Seq<u8>,
    rows: Seq<Option<(Seq<u8>, Seq<u8>)>>,
    machines: Seq<MachineRecord>,
    dirs: Seq<InstanceDir>,
    infos: Seq<InstanceInfoView>,
)
    requires
        list_spec(workspace, rows, machines, dirs) == Ok::<Seq<InstanceInfoView>, LayerError>(infos),
    ensures
        forall|i: int| 0 <= i < infos.len() ==> listed_in(dirs, (#[trigger] infos[i]).name),
    decreases dirs.len(),
{
    if dirs.len() > 0 {
        let last = dirs.len() - 1;
        let prior = dirs.drop_last();
        if let Ok(prev) = list_spec(workspace, rows, machines, prior) {
            lemma_list_names_from_listing(workspace, rows, machines, prior, prev);
            assert forall|i: int| 0 <= i < infos.len() implies listed_in(dirs, (#[trigger] infos[i]).name) by {
                if i < prev.len() {
                    assert(infos[i] == prev[i]);
                    assert(listed_in(prior, prev[i].name));
                    let j = choose|j: int|
                        0 <= j < prior.len() && (#[trigger] prior[j]).well_formed && prior[j].name@
                            == prev[i].name;
                    assert(dirs[j] == prior[j]);
                } else {
                    assert(dirs[last].well_formed && dirs[last].name@ == infos[i].name);
                }
            }
        }
    }
}

} // verus!
