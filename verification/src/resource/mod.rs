use vstd::prelude::*;
use vstd::string::StringExecFns;

pub mod index;
pub mod item;
pub mod node;

verus! {

/// The kinds of assets that one paired file set holds.
#[derive(Debug, Clone, Copy, PartialEq, Eq, Structural)]
pub enum ResourceType {
    MeshesAnimationsMaterials,
    Textures,
    MusicSound,
    Text,
    Characters,
}

/// The two file roles of a resource pair: the index and the asset database.
#[derive(Debug, Clone, Copy, PartialEq, Eq, Structural)]
pub enum ResourceFormat {
    IndexFile,
    AssetDatabase,
}

/// The file name that carries the given resource type in the given format.
pub open spec fn spec_resource_filename(res_type: ResourceType, res_format: ResourceFormat) -> Seq<
    char,
> {
    match (res_type, res_format) {
        (ResourceType::MeshesAnimationsMaterials, ResourceFormat::IndexFile) => "data0.idx"@,
        (ResourceType::MeshesAnimationsMaterials, ResourceFormat::AssetDatabase) => "data0.sdb"@,
        (ResourceType::Textures, ResourceFormat::IndexFile) => "data1.idx"@,
        (ResourceType::Textures, ResourceFormat::AssetDatabase) => "data1.sdb"@,
        (ResourceType::MusicSound, ResourceFormat::IndexFile) => "data2.idx"@,
        (ResourceType::MusicSound, ResourceFormat::AssetDatabase) => "data2.sdb"@,
        (ResourceType::Text, ResourceFormat::IndexFile) => "data5.idx"@,
        (ResourceType::Text, ResourceFormat::AssetDatabase) => "data5.sdb"@,
        (ResourceType::Characters, ResourceFormat::IndexFile) => "characters.idx"@,
        (ResourceType::Characters, ResourceFormat::AssetDatabase) => "characters.sdb"@,
    }
}

/// Returns the filename containing the given resource type in the given
/// format.
pub fn get_resource_filename(res_type: ResourceType, res_format: ResourceFormat) -> (r: String)
    ensures
        r@ == spec_resource_filename(res_type, res_format),
{
    match (res_type, res_format) {
        (ResourceType::MeshesAnimationsMaterials, ResourceFormat::IndexFile) => String::from_str(
            "data0.idx",
        ),
        (ResourceType::MeshesAnimationsMaterials, ResourceFormat::AssetDatabase) => String::from_str(
            "data0.sdb",
        ),
        (ResourceType::Textures, ResourceFormat::IndexFile) => String::from_str("data1.idx"),
        (ResourceType::Textures, ResourceFormat::AssetDatabase) => String::from_str("data1.sdb"),
        (ResourceType::MusicSound, ResourceFormat::IndexFile) => String::from_str("data2.idx"),
        (ResourceType::MusicSound, ResourceFormat::AssetDatabase) => String::from_str("data2.sdb"),
        (ResourceType::Text, ResourceFormat::IndexFile) => String::from_str("data5.idx"),
        (ResourceType::Text, ResourceFormat::AssetDatabase) => String::from_str("data5.sdb"),
        (ResourceType::Characters, ResourceFormat::IndexFile) => String::from_str(
            "characters.idx",
        ),
        (ResourceType::Characters, ResourceFormat::AssetDatabase) => String::from_str(
            "characters.sdb",
        ),
    }
}

} // verus!
