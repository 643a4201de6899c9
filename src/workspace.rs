//! Paths of a workspace that other tools share.

use vstd::prelude::*;

verus! {

/// The output directory used when the workspace configuration cannot be read.
pub open spec fn default_output_dir() -> Seq<u8> {
    seq![79u8, 85u8, 84u8, 80u8, 85u8, 84u8]
}

/// The output directory of the workspace: the one that the configuration names,
/// when it could be read, else `OUTPUT`.
pub fn get_output_dir(configured: Option<Vec<u8>>) -> (r: Vec<u8>)
    ensures
        match configured {
            Some(d) => r@ == d@,
            None => r@ == default_output_dir(),
        },
{
    match configured {
        Some(d) => d,
        None => vec![79u8, 85u8, 84u8, 80u8, 85u8, 84u8],
    }
}

/// The prefix of the file name of a helper program.
pub open spec fn helper_prefix() -> Seq<u8> {
    seq![99u8, 105u8, 101u8, 108u8, 45u8]
}

/// A file of the helper directory: its name, and whether it is a regular file.
#[derive(Clone, Debug)]
pub struct HelperFile {
    pub name: Vec<u8>,
    pub is_file: bool,
}

/// Whether `f` is a helper program: a regular file whose name carries the
/// helper prefix.
pub open spec fn is_helper(f: HelperFile) -> bool {
    let n = helper_prefix().len() as int;
    f.is_file && f.name@.len() >= n && f.name@.subrange(0, n) == helper_prefix()
}

/// The names of the helper programs among `files`, in their order.
pub open spec fn helper_names_spec(files: Seq<HelperFile>) -> Seq<Seq<u8>>
    decreases files.len(),
{
    if files.len() == 0 {
        Seq::empty()
    } else {
        if is_helper(files.last()) {
            helper_names_spec(files.drop_last()).push(files.last().name@)
        } else {
            helper_names_spec(files.drop_last())
        }
    }
}

/// The names of the helper programs among `files`, in their order: the regular
/// files whose names begin with `ciel-`, each name whole.
pub fn list_helpers(files: &Vec<HelperFile>) -> (r: Vec<Vec<u8>>)
    ensures
        crate::path::views(r@) == helper_names_spec(files@),
{
    let prefix: Vec<u8> = vec![99u8, 105u8, 101u8, 108u8, 45u8];
    let mut r: Vec<Vec<u8>> = Vec::new();
    let mut i: usize = 0;
    assert(files@.subrange(0, 0) =~= Seq::<HelperFile>::empty());
    assert(crate::path::views(r@) =~= Seq::<Seq<u8>>::empty());
    while i < files.len()
        invariant
            0 <= i <= files@.len(),
            prefix@ == helper_prefix(),
            crate::path::views(r@) == helper_names_spec(files@.subrange(0, i as int)),
        decreases files@.len() - i,
    {
        let ghost next = files@.subrange(0, i + 1);
        assert(next.drop_last() == files@.subrange(0, i as int));
        assert(next.last() == files@[i as int]);
        let f = &files[i];
        if f.is_file && crate::path::starts_with(f.name.as_slice(), prefix.as_slice()) {
            let c = f.name.clone();
            let ghost before = r@;
            r.push(c);
            assert(crate::path::views(r@) =~= crate::path::views(before).push(c@));
        }
        i = i + 1;
    }
    assert(files@.subrange(0, files@.len() as int) == files@);
    r
}

} // verus!
