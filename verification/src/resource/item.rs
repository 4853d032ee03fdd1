use vstd::prelude::*;
use vstd::utf8::{decode_utf8, valid_utf8};
use crate::encoding::{decode_windows_1252, utf8_to_string, windows_1252_of};
use crate::errors::{AssetErrorView, AssetErrors};
use crate::reader::{can_read, le16_at, le32_at, parse_fail, read_bytes, read_u16_le, read_u32_le,
    read_u8, skip_bytes};

verus! {

/// One variable-size body record of the resource index: the identity strings
/// and size of one asset.
#[derive(Debug)]
pub struct ResourceIndexItem {
    /// Unique id string, usually of the form `resource_<number>`.
    pub uid: String,
    /// The `TYPE::NAME` string, in the legacy code page.
    pub name: String,
    /// The character name, present only in the character roster layout.
    pub char_name: Option<String>,
    /// Byte offset of the asset's header node.
    pub start: u32,
    /// A reserved field kept as read.
    pub unknown: u32,
    /// The asset's declared byte size.
    pub size: u32,
}

/// Mathematical image of an index item.
pub struct ItemView {
    pub uid: Seq<char>,
    pub name: Seq<char>,
    pub char_name: Option<Seq<char>>,
    pub start: u32,
    pub unknown: u32,
    pub size: u32,
}

impl View for ResourceIndexItem {
    type V = ItemView;

    open spec fn view(&self) -> ItemView {
        ItemView {
            uid: self.uid@,
            name: self.name@,
            char_name: match self.char_name {
                Some(s) => Some(s@),
                None => None,
            },
            start: self.start,
            unknown: self.unknown,
            size: self.size,
        }
    }
}

impl Clone for ResourceIndexItem {
    fn clone(&self) -> (r: Self)
        ensures
            r@ == self@,
    {
        ResourceIndexItem {
            uid: self.uid.clone(),
            name: self.name.clone(),
            char_name: match &self.char_name {
                Some(s) => Some(s.clone()),
                None => None,
            },
            start: self.start,
            unknown: self.unknown,
            size: self.size,
        }
    }
}

/// The item encoded at `pos`: a length-prefixed uid, a reserved zero byte,
/// three 32-bit fields, a length-prefixed name, and the character-name slot.
/// With `char_names` false (the generic asset index) the slot must hold a
/// zero length; with it true (the character roster index) a non-zero length
/// prefixes the character name and a trailing reserved byte.
pub open spec fn spec_read_item(d: Seq<u8>, pos: int, char_names: bool) -> Result<
    (ItemView, int),
    AssetErrorView,
> {
    if !can_read(d, pos, 2) {
        Err(AssetErrorView::Parser("index item uid length"@))
    } else {
        let uid_len = le16_at(d, pos);
        let p1 = pos + 2;
        if !can_read(d, p1, uid_len) {
            Err(AssetErrorView::Parser("index item uid"@))
        } else {
            let uid_bytes = d.subrange(p1, p1 + uid_len);
            let p2 = p1 + uid_len;
            if !valid_utf8(uid_bytes) {
                Err(AssetErrorView::Parser("index item uid"@))
            } else {
                let uid = decode_utf8(uid_bytes);
                if !can_read(d, p2, 1) {
                    Err(AssetErrorView::Parser("index item reserved"@))
                } else if d[p2] != 0 {
                    Err(AssetErrorView::Parser("index item reserved"@))
                } else {
                    let p3 = p2 + 1;
                    if !can_read(d, p3, 12) {
                        Err(AssetErrorView::Parser("index item start/unknown/size"@))
                    } else {
                        let start = le32_at(d, p3) as u32;
                        let unknown = le32_at(d, p3 + 4) as u32;
                        let size = le32_at(d, p3 + 8) as u32;
                        let p4 = p3 + 12;
                        spec_read_item_tail(d, p4, char_names, uid, start, unknown, size)
                    }
                }
            }
        }
    }
}

/// The name and character-name part of an item record, from offset `pos`.
pub open spec fn spec_read_item_tail(
    d: Seq<u8>,
    pos: int,
    char_names: bool,
    uid: Seq<char>,
    start: u32,
    unknown: u32,
    size: u32,
) -> Result<(ItemView, int), AssetErrorView> {
    if !can_read(d, pos, 2) {
        Err(AssetErrorView::Parser("index item name length"@))
    } else {
        let name_len = le16_at(d, pos);
        let p5 = pos + 2;
        if !can_read(d, p5, name_len) {
            Err(AssetErrorView::Parser("index item name"@))
        } else {
            let name = windows_1252_of(d.subrange(p5, p5 + name_len));
            let p6 = p5 + name_len;
            if !can_read(d, p6, 2) {
                Err(AssetErrorView::Parser("index item char name length"@))
            } else {
                let cn_len = le16_at(d, p6);
                let p7 = p6 + 2;
                if cn_len == 0 {
                    if !can_read(d, p7, 2) {
                        Err(AssetErrorView::Parser("index item char name pad"@))
                    } else {
                        Ok(
                            (
                                ItemView { uid, name, char_name: None, start, unknown, size },
                                p7 + 2,
                            ),
                        )
                    }
                } else if !char_names {
                    Err(AssetErrorView::Parser("index item char name length"@))
                } else if !can_read(d, p7, cn_len) {
                    Err(AssetErrorView::Parser("index item char name"@))
                } else {
                    let cn = windows_1252_of(d.subrange(p7, p7 + cn_len));
                    let p8 = p7 + cn_len;
                    if !can_read(d, p8, 1) {
                        Err(AssetErrorView::Parser("index item char name pad"@))
                    } else {
                        Ok(
                            (
                                ItemView { uid, name, char_name: Some(cn), start, unknown, size },
                                p8 + 1,
                            ),
                        )
                    }
                }
            }
        }
    }
}

impl ResourceIndexItem {
    /// Decodes one index item at `pos`. `char_names` selects the character
    /// roster layout; the generic asset index passes false.
    pub fn read(d: &[u8], pos: usize, char_names: bool) -> (r: Result<
        (ResourceIndexItem, usize),
        AssetErrors,
    >)
        ensures
            spec_read_item(d@, pos as int, char_names) matches Ok((iv, p)) ==> (r matches Ok(
                (item, p2),
            ) && item@ == iv && p2 == p),
            spec_read_item(d@, pos as int, char_names) matches Err(ev) ==> (r matches Err(e)
                && e@ == ev),
    {
        let (uid_len, p) = read_u16_le(d, pos, "index item uid length")?;
        let (uid_bytes, p) = read_bytes(d, p, uid_len as usize, "index item uid")?;
        let uid = match utf8_to_string(uid_bytes.as_slice()) {
            Some(s) => s,
            None => {
                return Err(parse_fail("index item uid"));
            },
        };
        let (reserved, p) = read_u8(d, p, "index item reserved")?;
        if reserved != 0 {
            return Err(parse_fail("index item reserved"));
        }
        let (start, p) = read_u32_le(d, p, "index item start/unknown/size")?;
        let (unknown, p) = read_u32_le(d, p, "index item start/unknown/size")?;
        let (size, p) = read_u32_le(d, p, "index item start/unknown/size")?;
        let (name_len, p) = read_u16_le(d, p, "index item name length")?;
        let (name_bytes, p) = read_bytes(d, p, name_len as usize, "index item name")?;
        let name = decode_windows_1252(name_bytes.as_slice());
        let (cn_len, p) = read_u16_le(d, p, "index item char name length")?;
        if cn_len == 0 {
            let p = skip_bytes(d, p, 2, "index item char name pad")?;
            Ok((ResourceIndexItem { uid, name, char_name: None, start, unknown, size }, p))
        } else if !char_names {
            Err(parse_fail("index item char name length"))
        } else {
            let (cn_bytes, p) = read_bytes(d, p, cn_len as usize, "index item char name")?;
            let cn = decode_windows_1252(cn_bytes.as_slice());
            let p = skip_bytes(d, p, 1, "index item char name pad")?;
            Ok((ResourceIndexItem { uid, name, char_name: Some(cn), start, unknown, size }, p))
        }
    }
}

} // verus!
