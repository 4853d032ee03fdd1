pub mod asset;
pub mod encoding;
pub mod errors;
pub mod reader;
pub mod resource;
pub mod strutil;

pub use asset::bookmark::AssetBookmark;
pub use asset::content::AssetContent;
pub use asset::data::AssetData;
pub use asset::AssetType;
pub use resource::get_resource_filename;
pub use resource::index::ResourceIndex;
pub use resource::ResourceFormat;
pub use resource::ResourceType;
