//! Default executable search paths per operating-system family.
use vstd::prelude::*;

verus! {

/// An operating-system family.
pub enum OsFamily {
    Windows,
    Unix,
}

/// Unix style list of directories to search for executables, separated by
/// colons.
pub const DEFAULT_PATH_ENV_UNIX: &'static str = "/usr/local/sbin:/usr/local/bin:/usr/sbin:/usr/bin:/sbin:/bin";

/// Windows style list of directories to search for executables, separated
/// by semicolons.
pub const DEFAULT_PATH_ENV_WINDOWS: &'static str = "c:\\Windows\\System32;c:\\Windows";

/// The default search path of a family.
pub fn default_path_env(family: OsFamily) -> (r: &'static str)
    ensures
        family is Windows ==> r@ == DEFAULT_PATH_ENV_WINDOWS@,
        family is Unix ==> r@ == DEFAULT_PATH_ENV_UNIX@,
{
    match family {
        OsFamily::Windows => DEFAULT_PATH_ENV_WINDOWS,
        OsFamily::Unix => DEFAULT_PATH_ENV_UNIX,
    }
}

} // verus!
