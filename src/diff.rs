//! The diff engine: classifies the entries of an upper layer into change records.

use vstd::prelude::*;
use crate::error::LayerError;
use crate::path::{
    SEP, join_all, join_segments, resolve_segments, resolve_spec, segments, strip_path_prefix,
    strip_prefix_spec, views,
};

verus! {

/// The type of an entry of the upper layer, read without following symlinks.
#[derive(Clone, Copy, Debug, PartialEq, Eq, Structural)]
pub enum EntryKind {
    Symlink,
    Directory,
    /// A character device, with its device id.
    CharDevice(u64),
    /// A regular file or any other type.
    Other,
}

/// What the walk of the upper layer reads of one entry.
#[derive(Clone, Debug)]
pub struct UpperEntry {
    /// The entry's path, below the upper layer's directory.
    pub path: Vec<u8>,
    pub kind: EntryKind,
    /// The value of `trusted.overlay.opaque`, if the entry has it.
    pub opaque: Option<Vec<u8>>,
    /// The value of `trusted.overlay.redirect`, if the entry has it.
    pub redirect: Option<Vec<u8>>,
    /// Whether the same relative path names a directory in the lower layer.
    pub lower_is_dir: bool,
}

/// The mathematical content of an [`UpperEntry`].
pub struct UpperEntryView {
    pub path: Seq<u8>,
    pub kind: EntryKind,
    pub opaque: Option<Seq<u8>>,
    pub redirect: Option<Seq<u8>>,
    pub lower_is_dir: bool,
}

impl View for UpperEntry {
    type V = UpperEntryView;

    open spec fn view(&self) -> UpperEntryView {
        UpperEntryView {
            path: self.path@,
            kind: self.kind,
            opaque: crate::path::opt_bytes(self.opaque),
            redirect: crate::path::opt_bytes(self.redirect),
            lower_is_dir: self.lower_is_dir,
        }
    }
}

/// One change that the upper layer holds against the lower layer.
#[derive(Clone, Debug)]
pub enum Diff {
    /// A symlink, by its full path in the upper layer.
    Symlink(Vec<u8>),
    /// An opaque directory, which replaces the lower one wholesale.
    OverrideDir(Vec<u8>),
    /// A renamed directory: where it came from, and where it is now.
    RenamedDir(Vec<u8>, Vec<u8>),
    /// A directory that the lower layer lacks.
    NewDir(Vec<u8>),
    /// A directory present in both layers; only its metadata may differ.
    ModifiedDir(Vec<u8>),
    /// A whiteout: the path is deleted from the lower layer.
    WhiteoutFile(Vec<u8>),
    /// A new or modified file.
    File(Vec<u8>),
}

/// The mathematical content of a [`Diff`].
pub enum DiffView {
    Symlink(Seq<u8>),
    OverrideDir(Seq<u8>),
    RenamedDir(Seq<u8>, Seq<u8>),
    NewDir(Seq<u8>),
    ModifiedDir(Seq<u8>),
    WhiteoutFile(Seq<u8>),
    File(Seq<u8>),
}

impl View for Diff {
    type V = DiffView;

    open spec fn view(&self) -> DiffView {
        match self {
            Diff::Symlink(p) => DiffView::Symlink(p@),
            Diff::OverrideDir(p) => DiffView::OverrideDir(p@),
            Diff::RenamedDir(f, t) => DiffView::RenamedDir(f@, t@),
            Diff::NewDir(p) => DiffView::NewDir(p@),
            Diff::ModifiedDir(p) => DiffView::ModifiedDir(p@),
            Diff::WhiteoutFile(p) => DiffView::WhiteoutFile(p@),
            Diff::File(p) => DiffView::File(p@),
        }
    }
}

/// The views of a sequence of entries.
pub open spec fn entry_views(s: Seq<UpperEntry>) -> Seq<UpperEntryView> {
    s.map_values(|e: UpperEntry| e@)
}

/// The views of a sequence of change records.
pub open spec fn diff_views(s: Seq<Diff>) -> Seq<DiffView> {
    s.map_values(|d: Diff| d@)
}

/// The byte `y`, the value of `trusted.overlay.opaque` on an opaque directory.
pub const OPAQUE_YES: u8 = 121;

/// The value of `trusted.overlay.opaque` on an opaque directory.
pub open spec fn opaque_marker() -> Seq<u8> {
    seq![OPAQUE_YES]
}

/// The path, relative to the upper layer, that a redirect value names for the
/// directory at relative path `rel`.  A value that begins with a separator is read
/// from the union root; any other from the directory's parent.  `None` when the
/// value is empty, or when its `..` segments climb out of the upper layer.
pub open spec fn redirect_source_spec(rel: Seq<u8>, redirect: Seq<u8>) -> Option<Seq<u8>> {
    if redirect.len() == 0 {
        None
    } else {
        let base = if redirect[0] == SEP {
            Some(Seq::<Seq<u8>>::empty())
        } else {
            match resolve_spec(Seq::empty(), segments(rel)) {
                Some(rc) => if rc.len() > 0 {
                    Some(rc.drop_last())
                } else {
                    None
                },
                None => None,
            }
        };
        match base {
            Some(b) => match resolve_spec(b, segments(redirect)) {
                Some(st) => Some(join_segments(st)),
                None => None,
            },
            None => None,
        }
    }
}

/// The change record for one entry of the upper layer at `upper`.
pub open spec fn classify_spec(upper: Seq<u8>, e: UpperEntryView) -> Result<DiffView, LayerError> {
    match strip_prefix_spec(e.path, upper) {
        Some(rel) => if rel.len() == 0 {
            Err(LayerError::ParseError)
        } else {
            match e.kind {
                EntryKind::Symlink => Ok(DiffView::Symlink(e.path)),
                EntryKind::Directory => if e.opaque == Some(opaque_marker()) {
                    Ok(DiffView::OverrideDir(rel))
                } else {
                    match e.redirect {
                        Some(r) => match redirect_source_spec(rel, r) {
                            Some(from) => Ok(DiffView::RenamedDir(from, rel)),
                            None => Err(LayerError::ParseError),
                        },
                        None => if e.lower_is_dir {
                            Ok(DiffView::ModifiedDir(rel))
                        } else {
                            Ok(DiffView::NewDir(rel))
                        },
                    }
                },
                EntryKind::CharDevice(dev) => if dev == 0 {
                    Ok(DiffView::WhiteoutFile(rel))
                } else {
                    Ok(DiffView::File(rel))
                },
                EntryKind::Other => Ok(DiffView::File(rel)),
            }
        },
        None => Err(LayerError::ParseError),
    }
}

/// Whether the relative path `rel` lies strictly below the relative path `dir`.
pub open spec fn below_spec(rel: Seq<u8>, dir: Seq<u8>) -> bool {
    dir.len() < rel.len() && rel.subrange(0, dir.len() as int) == dir && rel[dir.len() as int] == SEP
}

/// Whether `rel` lies below a directory that one of the records `prior` marks opaque.
pub open spec fn below_override(prior: Seq<DiffView>, rel: Seq<u8>) -> bool {
    exists|j: int|
        0 <= j < prior.len() && (#[trigger] prior[j] matches DiffView::OverrideDir(o) && below_spec(rel, o))
}

/// The change records for a walk of the upper layer, one for each entry and in
/// the walk's order, or the failure of the first entry that cannot be classified.
pub open spec fn diff_spec(upper: Seq<u8>, entries: Seq<UpperEntryView>) -> Result<Seq<DiffView>, LayerError>
    decreases entries.len(),
{
    if entries.len() == 0 {
        Ok(Seq::empty())
    } else {
        match diff_spec(upper, entries.drop_last()) {
            Ok(ds) => match classify_spec(upper, entries.last()) {
                Ok(d) => Ok(ds.push(d)),
                Err(e) => Err(e),
            },
            Err(e) => Err(e),
        }
    }
}

/// The path relative to the upper layer that a redirect value names for the
/// directory at `rel`; `None` when the value is empty or climbs out of the layer.
pub fn redirect_source(rel: &[u8], redirect: &[u8]) -> (r: Option<Vec<u8>>)
    ensures
        crate::path::opt_bytes(r) == redirect_source_spec(rel@, redirect@),
{
    if redirect.len() == 0 {
        return None;
    }
    let empty: Vec<Vec<u8>> = Vec::new();
    assert(views(empty@) =~= Seq::<Seq<u8>>::empty());
    let base: Vec<Vec<u8>> = if redirect[0] == SEP {
        empty
    } else {
        match resolve_segments(empty, rel) {
            Some(rc) => {
                if rc.len() == 0 {
                    return None;
                }
                let ghost before = rc@;
                let mut rc = rc;
                let _ = rc.pop();
                assert(views(rc@) =~= views(before).drop_last());
                rc
            },
            None => {
                return None;
            },
        }
    };
    match resolve_segments(base, redirect) {
        Some(st) => Some(join_all(&st)),
        None => None,
    }
}

/// The change record for one entry of the upper layer at `upper`.
pub fn classify(upper: &[u8], e: &UpperEntry) -> (r: Result<Diff, LayerError>)
    ensures
        match r {
            Ok(d) => classify_spec(upper@, e@) == Ok::<DiffView, LayerError>(d@),
            Err(err) => classify_spec(upper@, e@) == Err::<DiffView, LayerError>(err),
        },
{
    let rel = match strip_path_prefix(e.path.as_slice(), upper) {
        Some(rel) => rel,
        None => {
            return Err(LayerError::ParseError);
        },
    };
    if rel.len() == 0 {
        return Err(LayerError::ParseError);
    }
    match e.kind {
        EntryKind::Symlink => Ok(Diff::Symlink(e.path.clone())),
        EntryKind::Directory => {
            let opaque_set = match &e.opaque {
                Some(v) => v.len() == 1 && v[0] == OPAQUE_YES,
                None => false,
            };
            assert(opaque_set == (e@.opaque == Some(opaque_marker()))) by {
                if let Some(v) = e.opaque {
                    if v@.len() == 1 && v@[0] == OPAQUE_YES {
                        assert(v@ =~= opaque_marker());
                    }
                }
            }
            if opaque_set {
                Ok(Diff::OverrideDir(rel))
            } else {
                match &e.redirect {
                    Some(red) => match redirect_source(rel.as_slice(), red.as_slice()) {
                        Some(from) => Ok(Diff::RenamedDir(from, rel)),
                        None => Err(LayerError::ParseError),
                    },
                    None => if e.lower_is_dir {
                        Ok(Diff::ModifiedDir(rel))
                    } else {
                        Ok(Diff::NewDir(rel))
                    },
                }
            }
        },
        EntryKind::CharDevice(dev) => if dev == 0 {
            Ok(Diff::WhiteoutFile(rel))
        } else {
            Ok(Diff::File(rel))
        },
        EntryKind::Other => Ok(Diff::File(rel)),
    }
}

/// Whether `rel` lies strictly below `dir`.
pub fn is_below(rel: &[u8], dir: &[u8]) -> (r: bool)
    ensures
        r == below_spec(rel@, dir@),
{
    dir.len() < rel.len() && crate::path::starts_with(rel, dir) && rel[dir.len()] == SEP
}

/// Generates the change records for a walk of the upper layer at `upper`: one
/// record for each entry, in the walk's order.  Fails with the failure of the
/// first entry that cannot be classified.
pub fn diff(upper: &[u8], entries: &Vec<UpperEntry>) -> (r: Result<Vec<Diff>, LayerError>)
    ensures
        match r {
            Ok(ds) => diff_spec(upper@, entry_views(entries@)) == Ok::<Seq<DiffView>, LayerError>(
                diff_views(ds@),
            ),
            Err(err) => diff_spec(upper@, entry_views(entries@)) == Err::<Seq<DiffView>, LayerError>(
                err,
            ),
        },
{
    let mut mods: Vec<Diff> = Vec::new();
    let mut i: usize = 0;
    assert(entry_views(entries@).subrange(0, 0) =~= Seq::<UpperEntryView>::empty());
    assert(diff_views(mods@) =~= Seq::<DiffView>::empty());
    while i < entries.len()
        invariant
            0 <= i <= entries@.len(),
            diff_spec(upper@, entry_views(entries@).subrange(0, i as int)) == Ok::<
                Seq<DiffView>,
                LayerError,
            >(diff_views(mods@)),
        decreases entries@.len() - i,
    {
        let ghost pre = entry_views(entries@).subrange(0, i as int);
        let ghost next = entry_views(entries@).subrange(0, i + 1);
        assert(next.drop_last() == pre);
        assert(next.last() == entries@[i as int]@);
        match classify(upper, &entries[i]) {
            Ok(d) => {
                let ghost before = mods@;
                mods.push(d);
                assert(diff_views(mods@) =~= diff_views(before).push(d@));
            },
            Err(err) => {
                proof {
                    lemma_diff_fails_on(upper@, entry_views(entries@), i + 1);
                }
                return Err(err);
            },
        }
        i = i + 1;
    }
    assert(entry_views(entries@).subrange(0, entries@.len() as int) == entry_views(entries@));
    Ok(mods)
}

/// A walk whose prefix fails to classify fails with the same failure.
proof fn lemma_diff_fails_on(upper: Seq<u8>, entries: Seq<UpperEntryView>, n: int)
    requires
        0 <= n <= entries.len(),
        diff_spec(upper, entries.subrange(0, n)) is Err,
    ensures
        diff_spec(upper, entries) == diff_spec(upper, entries.subrange(0, n)),
    decreases entries.len(),
{
    if n < entries.len() {
        assert(entries.drop_last().subrange(0, n) == entries.subrange(0, n));
        lemma_diff_fails_on(upper, entries.drop_last(), n);
    } else {
        assert(entries.subrange(0, n) == entries);
    }
}

} // verus!
