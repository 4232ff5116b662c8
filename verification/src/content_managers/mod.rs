//! Content sources: where candidate wallpapers come from.

pub mod git;
pub mod local;

use crate::wallpaper::wallpapers_view;
use crate::wallpaper::Wallpaper;
use crate::wallpaper::WallpaperView;
use vstd::prelude::*;
use vstd::std_specs::convert::FromSpecImpl;
use vstd::std_specs::convert::TryFromSpecImpl;

verus! {

/// The kind of source an item was listed by. It is persisted with the item
/// as a small integer: `0` for `Local`, `1` for `Git`.
#[derive(Debug, Clone, Copy, PartialEq, Eq, Hash, Structural)]
pub enum ContentManagerTypes {
    Local,
    Git,
}

impl ContentManagerTypes {
    /// The integer under which this kind is persisted.
    pub open spec fn spec_id(self) -> u8 {
        match self {
            ContentManagerTypes::Local => 0u8,
            ContentManagerTypes::Git => 1u8,
        }
    }

    /// The kind persisted under `value`, if there is one.
    pub open spec fn spec_from_id(value: u8) -> Option<ContentManagerTypes> {
        if value == 0 {
            Some(ContentManagerTypes::Local)
        } else if value == 1 {
            Some(ContentManagerTypes::Git)
        } else {
            None
        }
    }

    /// Whether `value` is the persisted form of some kind.
    pub open spec fn known_id(value: u8) -> bool {
        value <= 1
    }
}

impl From<ContentManagerTypes> for u8 {
    fn from(value: ContentManagerTypes) -> (id: u8)
    {
        match value {
            ContentManagerTypes::Local => 0,
            ContentManagerTypes::Git => 1,
        }
    }
}

impl FromSpecImpl<ContentManagerTypes> for u8 {
    open spec fn obeys_from_spec() -> bool {
        true
    }

    open spec fn from_spec(value: ContentManagerTypes) -> u8 {
        value.spec_id()
    }
}

impl TryFrom<u8> for ContentManagerTypes {
    type Error = ();

    fn try_from(value: u8) -> (kind: Result<Self, Self::Error>)
    {
        match value {
            0 => Ok(ContentManagerTypes::Local),
            1 => Ok(ContentManagerTypes::Git),
            _ => Err(()),
        }
    }
}

impl TryFromSpecImpl<u8> for ContentManagerTypes {
    open spec fn obeys_try_from_spec() -> bool {
        true
    }

    open spec fn try_from_spec(value: u8) -> Result<Self, Self::Error> {
        match ContentManagerTypes::spec_from_id(value) {
            Some(kind) => Ok(kind),
            None => Err(()),
        }
    }
}

/// Converting a kind to its persisted integer and back gives the kind again,
/// and no other integer than `0` and `1` stands for a kind.
pub proof fn lemma_id_round_trip(kind: ContentManagerTypes, value: u8)
    ensures
        ContentManagerTypes::spec_from_id(kind.spec_id()) == Some(kind),
        ContentManagerTypes::known_id(kind.spec_id()),
        ContentManagerTypes::spec_from_id(value) is Some <==> ContentManagerTypes::known_id(value),
        ContentManagerTypes::spec_from_id(value) matches Some(k) ==> k.spec_id() == value,
{
}

/// The wallpapers that a source of the given kind offers under the given
/// ids, in the order given.
pub fn wallpapers_of_kind(ids: Vec<String>, kind: ContentManagerTypes) -> (wallpapers: Vec<
    Wallpaper,
>)
    ensures
        wallpapers_view(wallpapers@) == Seq::new(
            ids@.len(),
            |i: int| WallpaperView { id: ids@[i]@, type_id: kind },
        ),
{
    let mut wallpapers: Vec<Wallpaper> = Vec::new();
    let mut i: usize = 0;
    while i < ids.len()
        invariant
            i <= ids.len(),
            wallpapers.len() == i,
            forall|j: int|
                0 <= j < i ==> (#[trigger] wallpapers@[j])@ == (WallpaperView {
                    id: ids@[j]@,
                    type_id: kind,
                }),
        decreases ids.len() - i,
    {
        wallpapers.push(Wallpaper::new(ids[i].clone(), kind));
        i += 1;
    }
    assert(wallpapers_view(wallpapers@) =~= Seq::new(
        ids@.len(),
        |i: int| WallpaperView { id: ids@[i]@, type_id: kind },
    ));
    wallpapers
}

} // verus!
