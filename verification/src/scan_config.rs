use vstd::prelude::*;

verus! {

/// Whether `base` is a prefix of `path` by whole components, as
/// `std::path::Path::starts_with` decides.
pub uninterp spec fn path_starts_with(path: Seq<char>, base: Seq<char>) -> bool;

/// Calls `std::path::Path::starts_with`.  Trusted: the result is the name
/// above.
#[verifier::external_body]
fn starts_with_path(path: &str, base: &str) -> (r: bool)
    ensures
        r == path_starts_with(path@, base@),
{
    std::path::Path::new(path).starts_with(base)
}

/// Whether the path lies under one of the directories.
pub open spec fn under_any(path: Seq<char>, dirs: Seq<String>) -> bool {
    exists|i: int| 0 <= i < dirs.len() && path_starts_with(path, #[trigger] dirs[i]@)
}

fn lies_under_any(path: &str, dirs: &Vec<String>) -> (r: bool)
    ensures
        r == under_any(path@, dirs@),
{
    let mut i: usize = 0;
    while i < dirs.len()
        invariant
            i <= dirs@.len(),
            forall|j: int| 0 <= j < i ==> !path_starts_with(path@, #[trigger] dirs@[j]@),
        decreases dirs.len() - i,
    {
        if starts_with_path(path, dirs[i].as_str()) {
            return true;
        }
        i = i + 1;
    }
    false
}

/// The directories that are scanned for media, and those left out of the
/// scan.
pub struct ScanPaths {
    pub scan_paths: Vec<String>,
    pub exclude_paths: Option<Vec<String>>,
}

impl ScanPaths {
    /// Whether `path` lies under a scanned directory and under none of the
    /// excluded ones.
    pub fn path_matches(&self, path: &str) -> (r: bool)
        ensures
            r == (under_any(path@, self.scan_paths@) && !(self.exclude_paths matches Some(ex) && under_any(path@, ex@))),
    {
        if !lies_under_any(path, &self.scan_paths) {
            return false;
        }
        if let Some(exclude) = &self.exclude_paths {
            if lies_under_any(path, exclude) {
                return false;
            }
        }
        true
    }
}

} // verus!
