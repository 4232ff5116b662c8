//! Wallpapers that lie in a directory of this machine.
//!
//! Reading the directory is left to the caller. This module turns the names
//! of the files found there into wallpapers, and says where a wallpaper lies.

use crate::config::Config;
use crate::content_managers::wallpapers_of_kind;
use crate::content_managers::ContentManagerTypes;
use crate::text::texts;
use crate::wallpaper::wallpapers_view;
use crate::wallpaper::Wallpaper;
use crate::wallpaper::WallpaperView;
use vstd::prelude::*;

verus! {

/// The source of the wallpapers in one directory.
#[derive(Debug)]
pub struct LocalContentManager {
    location: String,
}

/// The parts of the path of the local wallpaper `id`: the directory, then the
/// file name. There is none where the directory could not be examined or is
/// reported with a size of zero.
pub open spec fn spec_local_path(location: Seq<char>, id: Seq<char>, size: Option<u64>) -> Option<
    Seq<Seq<char>>,
> {
    match size {
        Some(size) => if size == 0 {
            None
        } else {
            Some(seq![location, id])
        },
        None => None,
    }
}

impl LocalContentManager {
    /// The directory that the wallpapers lie in.
    pub closed spec fn location(&self) -> Seq<char> {
        self.location@
    }

    /// The source for the directory that the configuration names.
    pub fn new(config: &Config) -> (manager: LocalContentManager)
        ensures
            manager.location() == config.file_config.local.location@,
    {
        LocalContentManager { location: config.file_config.local.location.clone() }
    }

    /// The directory to list.
    pub fn directory(&self) -> (location: &str)
        ensures
            location@ == self.location(),
    {
        self.location.as_str()
    }

    /// The wallpapers for the names of the files found in the directory, in
    /// the order given.
    pub fn wallpapers_from(&self, file_names: Vec<String>) -> (wallpapers: Vec<Wallpaper>)
        ensures
            wallpapers_view(wallpapers@) == Seq::new(
                file_names@.len(),
                |i: int|
                    WallpaperView { id: file_names@[i]@, type_id: ContentManagerTypes::Local },
            ),
    {
        wallpapers_of_kind(file_names, ContentManagerTypes::Local)
    }

    /// The parts of the path of the wallpaper `id`, given the size that the
    /// file system reports for the directory, if it could be examined.
    pub fn wallpaper_path(&self, id: &str, size: Option<u64>) -> (parts: Result<Vec<String>, ()>)
        ensures
            match parts {
                Ok(parts) => spec_local_path(self.location(), id@, size) == Some(texts(parts@)),
                Err(_) => spec_local_path(self.location(), id@, size) is None,
            },
    {
        match size {
            Some(size) => {
                if size == 0 {
                    return Err(());
                }
            },
            None => {
                return Err(());
            },
        }
        let mut parts: Vec<String> = Vec::new();
        parts.push(self.location.clone());
        parts.push(id.to_owned());
        assert(texts(parts@) =~= seq![self.location(), id@]);
        Ok(parts)
    }
}

} // verus!
