use vstd::prelude::*;
use crate::errors::{AssetErrorView, AssetErrors};
use crate::reader::{can_read, le32_at, read_u32_le};

verus! {

/// One fixed-size header record of the resource index: the byte offsets of
/// one asset's region in the database file.
#[derive(Debug, Clone, Copy, PartialEq, Eq, Structural)]
pub struct ResourceIndexNode {
    pub node_start: u32,
    pub node_type: u32,
    pub node_next: u32,
    pub node_previous: u32,
    pub node_end: u32,
}

/// The node encoded at `pos`: five consecutive 32-bit little-endian fields,
/// or nothing when fewer than 20 bytes remain.
pub open spec fn spec_read_node(d: Seq<u8>, pos: int) -> Option<(ResourceIndexNode, int)> {
    if can_read(d, pos, 20) {
        Some(
            (
                ResourceIndexNode {
                    node_start: le32_at(d, pos) as u32,
                    node_type: le32_at(d, pos + 4) as u32,
                    node_next: le32_at(d, pos + 8) as u32,
                    node_previous: le32_at(d, pos + 12) as u32,
                    node_end: le32_at(d, pos + 16) as u32,
                },
                pos + 20,
            ),
        )
    } else {
        None
    }
}

impl ResourceIndexNode {
    /// Decodes one header node at `pos`; a short read is a `ParserError`.
    pub fn read(d: &[u8], pos: usize) -> (r: Result<(ResourceIndexNode, usize), AssetErrors>)
        ensures
            spec_read_node(d@, pos as int) matches Some((n, p)) ==> (r matches Ok((n2, p2))
                && n2 == n && p2 == p),
            spec_read_node(d@, pos as int) is None ==> (r matches Err(e) && e@
                == AssetErrorView::Parser("index node"@)),
    {
        let (node_start, p) = read_u32_le(d, pos, "index node")?;
        let (node_type, p) = read_u32_le(d, p, "index node")?;
        let (node_next, p) = read_u32_le(d, p, "index node")?;
        let (node_previous, p) = read_u32_le(d, p, "index node")?;
        let (node_end, p) = read_u32_le(d, p, "index node")?;
        Ok((ResourceIndexNode { node_start, node_type, node_next, node_previous, node_end }, p))
    }
}

} // verus!
