//! The backend that drives the `swww` command line.
//!
//! Running a program is left to the caller. This module says which program
//! to run with which arguments, and what its end means.

use crate::backends::WallpaperBackendError;
use crate::text::texts;
use vstd::prelude::*;
use vstd::string::StringExecFns;

verus! {

/// The `swww` command line as a backend.
pub struct SwwCliBackend;

/// The words of the command that shows the image at `path`: the program
/// first, then its arguments.
pub open spec fn spec_command(path: Seq<char>) -> Seq<Seq<char>> {
    seq!["swww"@, "img"@, "--resize=fit"@, path]
}

impl SwwCliBackend {
    /// The backend.
    pub fn new() -> (backend: SwwCliBackend) {
        SwwCliBackend {  }
    }

    /// The command that shows the image at `wallpaper_path`, fitted to the
    /// screen: the program first, then its arguments.
    pub fn command(&self, wallpaper_path: &str) -> (words: Vec<String>)
        ensures
            texts(words@) == spec_command(wallpaper_path@),
    {
        let mut words: Vec<String> = Vec::new();
        words.push(String::from_str("swww"));
        words.push(String::from_str("img"));
        words.push(String::from_str("--resize=fit"));
        words.push(String::from_str(wallpaper_path));
        assert(texts(words@) =~= spec_command(wallpaper_path@));
        words
    }

    /// What the end of the command means: the wallpaper is shown only where
    /// the program could be run and reported success.
    pub fn outcome(&self, exit_success: Option<bool>) -> (r: Result<(), WallpaperBackendError>)
        ensures
            r is Ok <==> exit_success == Some(true),
    {
        match exit_success {
            Some(true) => Ok(()),
            _ => Err(WallpaperBackendError::ChangeFailure),
        }
    }
}

} // verus!
