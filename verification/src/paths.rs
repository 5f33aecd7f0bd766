//! Declarations of the standard library's path types, which the benchmark
//! descriptions carry through unchanged.
use std::path::{Path, PathBuf};
use vstd::prelude::*;

verus! {

#[verifier::external_type_specification]
#[verifier::external_body]
pub struct ExPathBuf(PathBuf);

#[verifier::external_type_specification]
#[verifier::external_body]
pub struct ExPath(Path);

/// What `PathBuf::from` builds from the given text.
pub uninterp spec fn path_buf_from_text(text: Seq<char>) -> PathBuf;

/// `PathBuf::from(&str)`: the path whose text is `text`. The contract names
/// the result by the text it was built from; nothing else is said of it.
#[verifier::external_body]
pub(crate) fn path_buf_from(text: &str) -> (p: PathBuf)
    ensures
        p == path_buf_from_text(text@),
{
    PathBuf::from(text)
}


/// `PathBuf::clone`: the contract says the copy is the same path. Verus sees
/// a path only as a whole, so this says nothing of its text.
#[verifier::external_body]
pub(crate) fn clone_path_buf(p: &PathBuf) -> (r: PathBuf)
    ensures
        r == *p,
{
    p.clone()
}

} // verus!
