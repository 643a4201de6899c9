//! The mount probe: answers whether a path is mounted with a filesystem type,
//! from the contents of the kernel's mount-information file.

use vstd::prelude::*;
use crate::error::LayerError;
use crate::path::bytes_eq;

verus! {

/// One row of the mount table, as far as the probe reads it.
#[derive(Clone, Debug)]
pub struct MountRow {
    /// The mount point, with its octal escapes undone.
    pub mount_point: Vec<u8>,
    /// The filesystem type.
    pub fstype: Vec<u8>,
}

/// The rows that libmount's mount-information parser yields for `data`, in order:
/// each row's mount point and filesystem type, or `None` for a row it refuses.
pub uninterp spec fn mountinfo_rows(data: Seq<u8>) -> Seq<Option<(Seq<u8>, Seq<u8>)>>;

/// The views of parsed rows.
pub open spec fn row_views(rows: Seq<Option<MountRow>>) -> Seq<Option<(Seq<u8>, Seq<u8>)>> {
    rows.map_values(
        |o: Option<MountRow>|
            match o {
                Some(m) => Some((m.mount_point@, m.fstype@)),
                None => None,
            },
    )
}

/// Whether `rows` show `mount_point` mounted with `fstype`: a parse error when
/// any row is refused, else whether some row names that mount point and type.
pub open spec fn probe_spec(
    rows: Seq<Option<(Seq<u8>, Seq<u8>)>>,
    mount_point: Seq<u8>,
    fstype: Seq<u8>,
) -> Result<bool, LayerError> {
    if exists|i: int| 0 <= i < rows.len() && (#[trigger] rows[i]) is None {
        Err(LayerError::ParseError)
    } else {
        Ok(exists|i: int| 0 <= i < rows.len() && #[trigger] rows[i] == Some((mount_point, fstype)))
    }
}

/// Relies on `libmount::mountinfo::Parser`: iterating it over `data` yields the rows
/// of the mount table in order, each parsed or refused; the byte contents of
/// the mount point and filesystem type of each parsed row are kept.
#[verifier::external_body]
pub(crate) fn parse_mountinfo(data: &[u8]) -> (r: Vec<Option<MountRow>>)
    ensures
        row_views(r@) == mountinfo_rows(data@),
{
    libmount::mountinfo::Parser::new(data)
        .map(|row| row.ok().map(|m| MountRow {
            mount_point: m.mount_point.as_encoded_bytes().to_vec(),
            fstype: m.fstype.as_encoded_bytes().to_vec(),
        }))
        .collect()
}

/// Whether the parsed `rows` show `mount_point` mounted with `fstype`.
pub fn mounted_in(rows: &Vec<Option<MountRow>>, mount_point: &[u8], fstype: &[u8]) -> (r: Result<bool, LayerError>)
    ensures
        r == probe_spec(row_views(rows@), mount_point@, fstype@),
{
    let ghost all = row_views(rows@);
    let mut found = false;
    let mut i: usize = 0;
    while i < rows.len()
        invariant
            0 <= i <= rows@.len(),
            all == row_views(rows@),
            forall|j: int| 0 <= j < i ==> (#[trigger] all[j]) is Some,
            found == exists|j: int| 0 <= j < i && #[trigger] all[j] == Some((mount_point@, fstype@)),
        decreases rows@.len() - i,
    {
        match &rows[i] {
            None => {
                assert(all[i as int] is None);
                return Err(LayerError::ParseError);
            },
            Some(row) => {
                if bytes_eq(row.mount_point.as_slice(), mount_point) && bytes_eq(
                    row.fstype.as_slice(),
                    fstype,
                ) {
                    found = true;
                }
                assert(all[i as int] == Some((row.mount_point@, row.fstype@)));
            },
        }
        i = i + 1;
    }
    Ok(found)
}

/// Whether the mount-information file whose contents are `mountinfo` shows
/// `mount_point` (byte for byte) mounted with the filesystem type `fs_type`.
/// Fails with a parse error when any row of the table is malformed.
pub fn is_mounted(mountinfo: &[u8], mount_point: &[u8], fs_type: &[u8]) -> (r: Result<bool, LayerError>)
    ensures
        r == probe_spec(mountinfo_rows(mountinfo@), mount_point@, fs_type@),
{
    let rows = parse_mountinfo(mountinfo);
    mounted_in(&rows, mount_point, fs_type)
}

} // verus!
