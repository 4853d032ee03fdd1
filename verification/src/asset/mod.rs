use vstd::prelude::*;
use vstd::string::StringExecFns;
use crate::errors::{AssetErrorView, AssetErrors};
use crate::strutil::str_eq_chars;

pub mod attribute;
pub mod bookmark;
pub mod content;
pub mod data;
pub mod image;
pub mod text;
pub mod texture;

verus! {

/// The closed set of asset categories a catalog entry can belong to.
#[derive(Debug, Clone, Copy, PartialEq, Eq, Structural)]
pub enum AssetType {
    Material,
    Animation,
    Mesh,
    Image,
    Text,
    Binary,
    Texture,
    Font,
    Effect,
    Music,
    Sound,
    Character,
    Auth,
    MapObject,
    TerrainRegion,
    WorldMap,
}

/// The canonical tag string of each asset type.
pub open spec fn tag_of(t: AssetType) -> Seq<char> {
    match t {
        AssetType::Material => "MATERIAL"@,
        AssetType::Animation => "ANIMATION"@,
        AssetType::Mesh => "MESH"@,
        AssetType::Image => "IMAGE"@,
        AssetType::Text => "TEXT"@,
        AssetType::Binary => "BINARY"@,
        AssetType::Texture => "TEXTURE"@,
        AssetType::Font => "FONT"@,
        AssetType::Effect => "EFFECT"@,
        AssetType::Music => "MUSIC"@,
        AssetType::Sound => "SOUND"@,
        AssetType::Character => "mesh"@,
        AssetType::Auth => "pcauth"@,
        AssetType::MapObject => "MAPOBJECT"@,
        AssetType::TerrainRegion => "TERRAIN_REGION"@,
        AssetType::WorldMap => "WORLDMAP"@,
    }
}

/// The asset type that a tag string from an index item denotes, if any. The
/// `pcauth` tag is deliberately absent: it is recognised on the uid, not on
/// the type tag, so here it stays unknown.
pub open spec fn type_for_tag(s: Seq<char>) -> Option<AssetType> {
    if s == "MATERIAL"@ {
        Some(AssetType::Material)
    } else if s == "ANIMATION"@ {
        Some(AssetType::Animation)
    } else if s == "MESH"@ {
        Some(AssetType::Mesh)
    } else if s == "IMAGE"@ {
        Some(AssetType::Image)
    } else if s == "TEXT"@ {
        Some(AssetType::Text)
    } else if s == "BINARY"@ {
        Some(AssetType::Binary)
    } else if s == "TEXTURE"@ {
        Some(AssetType::Texture)
    } else if s == "EFFECT"@ {
        Some(AssetType::Effect)
    } else if s == "FONT"@ {
        Some(AssetType::Font)
    } else if s == "SOUND"@ {
        Some(AssetType::Sound)
    } else if s == "MUSIC"@ {
        Some(AssetType::Music)
    } else if s == "mesh"@ {
        Some(AssetType::Character)
    } else if s == "MAPOBJECT"@ {
        Some(AssetType::MapObject)
    } else if s == "TERRAIN_REGION"@ {
        Some(AssetType::TerrainRegion)
    } else if s == "WORLDMAP"@ {
        Some(AssetType::WorldMap)
    } else {
        None
    }
}

impl AssetType {
    /// Maps a tag string to its asset type; a tag outside the fixed table is
    /// an `UnknownAssetTypeError` carrying that tag.
    pub fn try_from_tag(value: &str) -> (r: Result<AssetType, AssetErrors>)
        ensures
            type_for_tag(value@) matches Some(t) ==> (r matches Ok(t2) && t2 == t),
            type_for_tag(value@) is None ==> (r matches Err(e) && e@
                == AssetErrorView::UnknownAssetType(value@)),
    {
        if str_eq_chars(value, "MATERIAL") {
            Ok(AssetType::Material)
        } else if str_eq_chars(value, "ANIMATION") {
            Ok(AssetType::Animation)
        } else if str_eq_chars(value, "MESH") {
            Ok(AssetType::Mesh)
        } else if str_eq_chars(value, "IMAGE") {
            Ok(AssetType::Image)
        } else if str_eq_chars(value, "TEXT") {
            Ok(AssetType::Text)
        } else if str_eq_chars(value, "BINARY") {
            Ok(AssetType::Binary)
        } else if str_eq_chars(value, "TEXTURE") {
            Ok(AssetType::Texture)
        } else if str_eq_chars(value, "EFFECT") {
            Ok(AssetType::Effect)
        } else if str_eq_chars(value, "FONT") {
            Ok(AssetType::Font)
        } else if str_eq_chars(value, "SOUND") {
            Ok(AssetType::Sound)
        } else if str_eq_chars(value, "MUSIC") {
            Ok(AssetType::Music)
        } else if str_eq_chars(value, "mesh") {
            Ok(AssetType::Character)
        } else if str_eq_chars(value, "MAPOBJECT") {
            Ok(AssetType::MapObject)
        } else if str_eq_chars(value, "TERRAIN_REGION") {
            Ok(AssetType::TerrainRegion)
        } else if str_eq_chars(value, "WORLDMAP") {
            Ok(AssetType::WorldMap)
        } else {
            Err(AssetErrors::UnknownAssetTypeError(String::from_str(value)))
        }
    }

    /// The canonical tag string of this asset type.
    pub fn tag(&self) -> (r: &'static str)
        ensures
            r@ == tag_of(*self),
    {
        match self {
            AssetType::Material => "MATERIAL",
            AssetType::Animation => "ANIMATION",
            AssetType::Mesh => "MESH",
            AssetType::Image => "IMAGE",
            AssetType::Text => "TEXT",
            AssetType::Binary => "BINARY",
            AssetType::Texture => "TEXTURE",
            AssetType::Font => "FONT",
            AssetType::Effect => "EFFECT",
            AssetType::Music => "MUSIC",
            AssetType::Sound => "SOUND",
            AssetType::Character => "mesh",
            AssetType::Auth => "pcauth",
            AssetType::MapObject => "MAPOBJECT",
            AssetType::TerrainRegion => "TERRAIN_REGION",
            AssetType::WorldMap => "WORLDMAP",
        }
    }
}

} // verus!
