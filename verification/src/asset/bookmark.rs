use vstd::prelude::*;
use super::AssetType;

verus! {

/// The resolved catalog entry for one asset: where it lives in the database
/// file and what kind of asset it is.
#[derive(Debug)]
pub struct AssetBookmark {
    /// The numeric id parsed from the uid string, absent when the uid carries
    /// no numeric suffix.
    pub resource_id: Option<u32>,
    /// The asset category.
    pub asset_type: AssetType,
    /// The display name, absent for character entries without one.
    pub name: Option<String>,
    /// Byte offset where the asset's header node starts.
    pub node_start: usize,
    /// Byte offset just past the header node; the attribute stream starts here.
    pub node_end: usize,
    /// Byte offset of the following node.
    pub node_next: usize,
    /// The asset's declared byte size.
    pub size: u32,
}

/// Mathematical image of a bookmark, with text as character sequences and
/// offsets as unbounded integers.
pub struct BookmarkView {
    pub resource_id: Option<u32>,
    pub asset_type: AssetType,
    pub name: Option<Seq<char>>,
    pub node_start: int,
    pub node_end: int,
    pub node_next: int,
    pub size: u32,
}

impl View for AssetBookmark {
    type V = BookmarkView;

    open spec fn view(&self) -> BookmarkView {
        BookmarkView {
            resource_id: self.resource_id,
            asset_type: self.asset_type,
            name: match self.name {
                Some(s) => Some(s@),
                None => None,
            },
            node_start: self.node_start as int,
            node_end: self.node_end as int,
            node_next: self.node_next as int,
            size: self.size,
        }
    }
}

impl Clone for AssetBookmark {
    fn clone(&self) -> (r: Self)
        ensures
            r@ == self@,
    {
        AssetBookmark {
            resource_id: self.resource_id,
            asset_type: self.asset_type,
            name: match &self.name {
                Some(s) => Some(s.clone()),
                None => None,
            },
            node_start: self.node_start,
            node_end: self.node_end,
            node_next: self.node_next,
            size: self.size,
        }
    }
}

} // verus!
