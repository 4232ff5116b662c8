//! Platform backends: what actually changes the displayed wallpaper.

pub mod swww_cli;

use crate::wallpaper::Wallpaper;
use vstd::prelude::*;

verus! {

/// Why a backend could not show a wallpaper.
#[derive(Debug)]
pub enum WallpaperBackendError {
    ChangeFailure,
}

/// A mechanism that shows a wallpaper on the desktop. The rotation engine
/// promises nothing about what an implementation answers: every decision it
/// takes is stated for both answers.
pub trait WallpaperBackend {
    /// Shows the wallpaper. Showing the same one twice is harmless.
    fn set_wallpaper(&self, wallpaper: &Wallpaper) -> Result<(), WallpaperBackendError>;

    /// Whether the backend believes that it could show a wallpaper now.
    fn is_ready(&self) -> bool;
}

} // verus!
