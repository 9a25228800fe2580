use vstd::prelude::*;
use vstd::string::*;

verus! {

/// Why a run cannot start.
#[derive(Debug, Clone, PartialEq, Eq)]
pub enum StartupError {
    /// The target directory that was given does not exist.
    MissingTarget(String),
}

/// The directory a run archives in: the one given if it exists, the current
/// directory if none is given. `exists` says whether the given path exists
/// on disk; it is not consulted when no path is given.
pub fn target_dir_finder(target_dir: Option<String>, exists: bool) -> (r: Result<
    String,
    StartupError,
>)
    ensures
        target_dir is None ==> r is Ok && r->Ok_0@ == seq!['.'],
        target_dir is Some && exists ==> r is Ok && r->Ok_0@ == target_dir->Some_0@,
        target_dir is Some && !exists ==> (r matches Err(StartupError::MissingTarget(d)) && d@
            == target_dir->Some_0@),
{
    match target_dir {
        Some(dir) => {
            if exists {
                Ok(dir)
            } else {
                Err(StartupError::MissingTarget(dir))
            }
        },
        None => {
            proof {
                reveal_strlit(".");
            }
            Ok(String::from_str("."))
        },
    }
}

} // verus!
