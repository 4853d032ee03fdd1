use vstd::prelude::*;
use vstd::utf8::{decode_utf8, valid_utf8};
use super::attribute::is_zero4;
use super::bookmark::{AssetBookmark, BookmarkView};
use super::content::{spec_read_content, AssetContent, AssetContentView};
use super::AssetType;
use crate::encoding::{decode_windows_1252, utf8_to_string, windows_1252_of};
use crate::errors::{AssetErrorView, AssetErrors};
use crate::reader::{can_read, le32_at, parse_fail, read_bytes, read_u32_le, read_u8, skip_bytes};

verus! {

/// The fully decoded, typed result for one asset.
pub struct AssetData {
    /// The asset type, taken from the bookmark.
    pub asset_type: AssetType,
    /// A string with the form `resource_...`.
    pub uid: String,
    /// A string with the form `TYPE::NAME`.
    pub resource_name: String,
    /// The asset name.
    pub asset_name: String,
    /// The numeric identifier recorded in the stream.
    pub resource_id: u32,
    /// The actual content.
    pub content: AssetContent,
}

/// Mathematical image of a decoded asset.
pub struct AssetDataView {
    pub asset_type: AssetType,
    pub uid: Seq<char>,
    pub resource_name: Seq<char>,
    pub asset_name: Seq<char>,
    pub resource_id: u32,
    pub content: AssetContentView,
}

impl View for AssetData {
    type V = AssetDataView;

    open spec fn view(&self) -> AssetDataView {
        AssetDataView {
            asset_type: self.asset_type,
            uid: self.uid@,
            resource_name: self.resource_name@,
            asset_name: self.asset_name@,
            resource_id: self.resource_id,
            content: self.content@,
        }
    }
}

/// The fixed preamble of one asset record at `pos`: the start marker, the
/// uid and resource name, a declared size that must equal the size the
/// catalog recorded, the numeric resource id, the redundant type and name
/// strings, and the reserved regions between them. Yields the uid, resource
/// name, resource id and asset name, with the position where the
/// content-specific region starts.
pub open spec fn spec_asset_preamble(d: Seq<u8>, pos: int, expected_size: u32) -> Result<
    ((Seq<char>, Seq<char>, u32, Seq<char>), int),
    AssetErrorView,
> {
    if !can_read(d, pos, 4) {
        Err(AssetErrorView::Parser("asset node start"@))
    } else if !(d[pos] == 0x50 && d[pos + 1] == 0x41 && d[pos + 2] == 0x49 && d[pos + 3]
        == 0x52) {
        Err(AssetErrorView::Parser("asset node start"@))
    } else {
        let p1 = pos + 4;
        if !can_read(d, p1, 4) {
            Err(AssetErrorView::Parser("asset header"@))
        } else {
            let p2 = p1 + 4;
            if !can_read(d, p2, 1) {
                Err(AssetErrorView::Parser("asset uid length"@))
            } else {
                let uid_len = d[p2];
                let p3 = p2 + 1;
                if !can_read(d, p3, 16) {
                    Err(AssetErrorView::Parser("asset reserved"@))
                } else {
                    let p4 = p3 + 16;
                    if !can_read(d, p4, uid_len as int) {
                        Err(AssetErrorView::Parser("asset uid"@))
                    } else {
                        let uid_bytes = d.subrange(p4, p4 + uid_len);
                        if !valid_utf8(uid_bytes) {
                            Err(AssetErrorView::Parser("asset uid"@))
                        } else {
                            spec_asset_preamble_tail(
                                d,
                                p4 + uid_len,
                                expected_size,
                                decode_utf8(uid_bytes),
                            )
                        }
                    }
                }
            }
        }
    }
}

/// The part of the preamble that follows the uid.
pub open spec fn spec_asset_preamble_tail(
    d: Seq<u8>,
    pos: int,
    expected_size: u32,
    uid: Seq<char>,
) -> Result<((Seq<char>, Seq<char>, u32, Seq<char>), int), AssetErrorView> {
    if !can_read(d, pos, 1) {
        Err(AssetErrorView::Parser("asset resource name length"@))
    } else {
        let rn_len = d[pos];
        let p5 = pos + 1;
        if !can_read(d, p5, rn_len as int) {
            Err(AssetErrorView::Parser("asset resource name"@))
        } else {
            let resource_name = windows_1252_of(d.subrange(p5, p5 + rn_len));
            let p6 = p5 + rn_len;
            if !can_read(d, p6, 4) {
                Err(AssetErrorView::Parser("asset separator"@))
            } else if !is_zero4(d, p6) {
                Err(AssetErrorView::Parser("asset separator"@))
            } else {
                let p7 = p6 + 4;
                if !can_read(d, p7, 4) {
                    Err(AssetErrorView::Parser("asset size"@))
                } else if le32_at(d, p7) != expected_size {
                    Err(AssetErrorView::Parser("asset size"@))
                } else {
                    let p8 = p7 + 4;
                    if !can_read(d, p8, 16) {
                        Err(AssetErrorView::Parser("asset reserved"@))
                    } else {
                        let p9 = p8 + 16;
                        if !can_read(d, p9, 4) {
                            Err(AssetErrorView::Parser("asset marker"@))
                        } else if !(d[p9] == 1 && d[p9 + 1] == 0 && d[p9 + 2] == 0 && d[p9 + 3]
                            == 0) {
                            Err(AssetErrorView::Parser("asset marker"@))
                        } else {
                            let p10 = p9 + 4;
                            if !can_read(d, p10, 8) {
                                Err(AssetErrorView::Parser("asset resource id"@))
                            } else {
                                let rid = le32_at(d, p10) as u32;
                                let p12 = p10 + 8;
                                spec_asset_preamble_names(d, p12, uid, resource_name, rid)
                            }
                        }
                    }
                }
            }
        }
    }
}

/// The redundant type and name strings that close the preamble.
pub open spec fn spec_asset_preamble_names(
    d: Seq<u8>,
    pos: int,
    uid: Seq<char>,
    resource_name: Seq<char>,
    rid: u32,
) -> Result<((Seq<char>, Seq<char>, u32, Seq<char>), int), AssetErrorView> {
    if !can_read(d, pos, 4) {
        Err(AssetErrorView::Parser("asset type tag"@))
    } else {
        let ty_len = le32_at(d, pos);
        let p13 = pos + 4;
        if !can_read(d, p13, ty_len) {
            Err(AssetErrorView::Parser("asset type tag"@))
        } else {
            let p14 = p13 + ty_len;
            if !can_read(d, p14, 4) {
                Err(AssetErrorView::Parser("asset display name"@))
            } else {
                let an_len = le32_at(d, p14);
                let p15 = p14 + 4;
                if !can_read(d, p15, an_len) {
                    Err(AssetErrorView::Parser("asset display name"@))
                } else {
                    let asset_name = windows_1252_of(d.subrange(p15, p15 + an_len));
                    let p16 = p15 + an_len;
                    if !can_read(d, p16, 16) {
                        Err(AssetErrorView::Parser("asset reserved"@))
                    } else {
                        Ok(((uid, resource_name, rid, asset_name), p16 + 16))
                    }
                }
            }
        }
    }
}

/// The asset that the database stream holds for `bm`: the preamble at the
/// bookmark's `node_end`, then the content-specific region for its type.
pub open spec fn spec_read_asset(d: Seq<u8>, bm: BookmarkView) -> Result<
    AssetDataView,
    AssetErrorView,
> {
    match spec_asset_preamble(d, bm.node_end, bm.size) {
        Err(e) => Err(e),
        Ok((fields, p)) => match spec_read_content(d, p, bm.asset_type, bm.size) {
            Err(e) => Err(e),
            Ok(c) => Ok(
                AssetDataView {
                    asset_type: bm.asset_type,
                    uid: fields.0,
                    resource_name: fields.1,
                    asset_name: fields.3,
                    resource_id: fields.2,
                    content: c,
                },
            ),
        },
    }
}

/// The declared size inside an asset's preamble and the size the catalog
/// expects round-trip: one byte stream cannot satisfy two different
/// expectations, so a successful decode pins the stream's size field to the
/// bookmark's.
pub proof fn lemma_preamble_size_exact(d: Seq<u8>, pos: int, e1: u32, e2: u32)
    requires
        spec_asset_preamble(d, pos, e1) is Ok,
        spec_asset_preamble(d, pos, e2) is Ok,
    ensures
        e1 == e2,
{
}

impl AssetData {
    /// Decodes the asset that `bookmark` points to out of the database bytes
    /// `d`. The declared size inside the stream must equal the size the
    /// catalog recorded; for a texture the image container decoder's named
    /// verdict on the payload bytes decides success.
    pub fn read(d: &[u8], bookmark: &AssetBookmark) -> (r: Result<AssetData, AssetErrors>)
        ensures
            spec_read_asset(d@, bookmark@) matches Ok(av) ==> (r matches Ok(a) && a@ == av),
            spec_read_asset(d@, bookmark@) matches Err(ev) ==> (r matches Err(e) && e@ == ev),
    {
        let pos = bookmark.node_end;
        let (m, p) = read_bytes(d, pos, 4, "asset node start")?;
        if !(m[0] == 0x50 && m[1] == 0x41 && m[2] == 0x49 && m[3] == 0x52) {
            return Err(parse_fail("asset node start"));
        }
        let p = skip_bytes(d, p, 4, "asset header")?;
        let (uid_len, p) = read_u8(d, p, "asset uid length")?;
        let p = skip_bytes(d, p, 16, "asset reserved")?;
        let (uid_bytes, p) = read_bytes(d, p, uid_len as usize, "asset uid")?;
        let uid = match utf8_to_string(uid_bytes.as_slice()) {
            Some(s) => s,
            None => {
                return Err(parse_fail("asset uid"));
            },
        };
        let (rn_len, p) = read_u8(d, p, "asset resource name length")?;
        let (rn_bytes, p) = read_bytes(d, p, rn_len as usize, "asset resource name")?;
        let resource_name = decode_windows_1252(rn_bytes.as_slice());
        let (sep, p) = read_bytes(d, p, 4, "asset separator")?;
        if !(sep[0] == 0 && sep[1] == 0 && sep[2] == 0 && sep[3] == 0) {
            return Err(parse_fail("asset separator"));
        }
        let (declared_size, p) = read_u32_le(d, p, "asset size")?;
        if declared_size != bookmark.size {
            return Err(parse_fail("asset size"));
        }
        let p = skip_bytes(d, p, 16, "asset reserved")?;
        let (mk, p) = read_bytes(d, p, 4, "asset marker")?;
        if !(mk[0] == 1 && mk[1] == 0 && mk[2] == 0 && mk[3] == 0) {
            return Err(parse_fail("asset marker"));
        }
        let (resource_id, p) = read_u32_le(d, p, "asset resource id")?;
        let p = skip_bytes(d, p, 4, "asset resource id")?;
        let (ty_len, p) = read_u32_le(d, p, "asset type tag")?;
        let p = skip_bytes(d, p, ty_len as usize, "asset type tag")?;
        let (an_len, p) = read_u32_le(d, p, "asset display name")?;
        let (an_bytes, p) = read_bytes(d, p, an_len as usize, "asset display name")?;
        let asset_name = decode_windows_1252(an_bytes.as_slice());
        let p = skip_bytes(d, p, 16, "asset reserved")?;
        let content = AssetContent::read(d, p, bookmark)?;
        Ok(
            AssetData {
                asset_type: bookmark.asset_type,
                uid,
                resource_name,
                asset_name,
                resource_id,
                content,
            },
        )
    }
}

} // verus!
