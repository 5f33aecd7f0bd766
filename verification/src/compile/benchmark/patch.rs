//! Patches applied to a benchmark between incremental builds.
use crate::text::{first_index, parse_u32, parse_u32_spec, str_split_once, str_strip_suffix};
use std::path::PathBuf;
use vstd::prelude::*;

verus! {

/// A patch file of a benchmark: its position in the sequence of patches, its
/// name, and where it lies.
pub struct Patch {
    pub index: usize,
    pub name: String,
    pub path: PathBuf,
}

/// The index a patch file name `<index>-<name>.patch` gives: the number
/// before the first `-`, or 0 when there is no `-` or no number there.
pub open spec fn patch_index_spec(file_name: Seq<char>) -> usize {
    let i = first_index(file_name, '-');
    if i < file_name.len() {
        match parse_u32_spec(file_name.take(i as int)) {
            Some(n) => n as usize,
            None => 0,
        }
    } else {
        0
    }
}

/// The name a patch file name `<index>-<name>.patch` gives: what follows the
/// first `-` (the whole file name when there is none), without a final
/// `.patch`.
pub open spec fn patch_name_spec(file_name: Seq<char>) -> Seq<char> {
    let i = first_index(file_name, '-');
    let rest = if i < file_name.len() {
        file_name.skip(i as int + 1)
    } else {
        file_name
    };
    if ".patch"@.is_suffix_of(rest) {
        rest.take(rest.len() - 6)
    } else {
        rest
    }
}

impl Patch {
    /// The patch in file `path`, whose file name is `file_name`.
    pub fn from_file_name(file_name: &str, path: PathBuf) -> (p: Patch)
        ensures
            p.index == patch_index_spec(file_name@),
            p.name@ == patch_name_spec(file_name@),
            p.path == path,
    {
        let (index, rest) = match str_split_once(file_name, '-') {
            Some((first, rest)) => {
                let index: usize = match parse_u32(first.as_str()) {
                    Some(n) => n as usize,
                    None => 0,
                };
                (index, rest)
            },
            None => (0, file_name.to_owned()),
        };
        proof {
            reveal_strlit(".patch");
        }
        let name = match str_strip_suffix(rest.as_str(), ".patch") {
            Some(stripped) => stripped,
            None => rest,
        };
        Patch { index, name, path }
    }

    /// A patch with the given index, name and file.
    pub fn new(index: usize, name: String, path: PathBuf) -> (p: Patch)
        ensures
            p.index == index,
            p.name == name,
            p.path == path,
    {
        Patch { index, name, path }
    }
}

} // verus!
