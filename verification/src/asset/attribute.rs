use vstd::prelude::*;
use vstd::utf8::{decode_utf8, valid_utf8};
use crate::encoding::{decode_windows_1252, utf8_to_string, windows_1252_of};
use crate::errors::{AssetErrorView, AssetErrors};
use crate::reader::{can_read, le32_at, parse_fail, read_bytes, read_u32_le, read_u8, skip_bytes};
use crate::strutil::str_eq_chars;

verus! {

/// One decoded field of an asset's attribute stream.
#[derive(Debug, Clone)]
pub enum AssetAttribute {
    /// A padding record of zero bytes.
    Blank,
    /// The record that opens an asset, carrying its numeric id.
    Start { resource_id: u32, unknown: u32 },
    /// The record that closes an attribute run.
    End,
    /// The asset's payload filename.
    Filename(String),
    /// The asset's raw payload bytes.
    Content { size: u32, bytes: Vec<u8> },
    /// The name of an animation.
    Animation(String),
    /// The name of a mesh.
    Mesh(String),
    /// The name of a material.
    Material(String),
    /// The name of a texture.
    Texture(String),
    /// The name of a music track.
    Music(String),
    /// The name of a sound.
    Sound(String),
}

/// Mathematical image of an attribute.
pub enum AssetAttributeView {
    Blank,
    Start { resource_id: u32, unknown: u32 },
    End,
    Filename(Seq<char>),
    Content { size: u32, bytes: Seq<u8> },
    Animation(Seq<char>),
    Mesh(Seq<char>),
    Material(Seq<char>),
    Texture(Seq<char>),
    Music(Seq<char>),
    Sound(Seq<char>),
}

impl View for AssetAttribute {
    type V = AssetAttributeView;

    open spec fn view(&self) -> AssetAttributeView {
        match self {
            AssetAttribute::Blank => AssetAttributeView::Blank,
            AssetAttribute::Start { resource_id, unknown } => AssetAttributeView::Start {
                resource_id: *resource_id,
                unknown: *unknown,
            },
            AssetAttribute::End => AssetAttributeView::End,
            AssetAttribute::Filename(s) => AssetAttributeView::Filename(s@),
            AssetAttribute::Content { size, bytes } => AssetAttributeView::Content {
                size: *size,
                bytes: bytes@,
            },
            AssetAttribute::Animation(s) => AssetAttributeView::Animation(s@),
            AssetAttribute::Mesh(s) => AssetAttributeView::Mesh(s@),
            AssetAttribute::Material(s) => AssetAttributeView::Material(s@),
            AssetAttribute::Texture(s) => AssetAttributeView::Texture(s@),
            AssetAttribute::Music(s) => AssetAttributeView::Music(s@),
            AssetAttribute::Sound(s) => AssetAttributeView::Sound(s@),
        }
    }
}

/// True when the end marker bytes stand at `pos`.
pub open spec fn is_end_marker(d: Seq<u8>, pos: int) -> bool {
    d[pos] == 0x52 && d[pos + 1] == 0x49 && d[pos + 2] == 0x41 && d[pos + 3] == 0x50
}

/// True when four zero bytes stand at `pos`.
pub open spec fn is_zero4(d: Seq<u8>, pos: int) -> bool {
    d[pos] == 0 && d[pos + 1] == 0 && d[pos + 2] == 0 && d[pos + 3] == 0
}

/// The payload of a name-tagged attribute: a 32-bit length and that many
/// bytes of legacy code page text.
pub open spec fn spec_tagged_text(d: Seq<u8>, pos: int) -> Result<(Seq<char>, int), AssetErrorView> {
    if !can_read(d, pos, 4) {
        Err(AssetErrorView::Parser("attribute value"@))
    } else {
        let len = le32_at(d, pos);
        let p = pos + 4;
        if !can_read(d, p, len) {
            Err(AssetErrorView::Parser("attribute value"@))
        } else {
            Ok((windows_1252_of(d.subrange(p, p + len)), p + len))
        }
    }
}

/// The attribute encoded at `pos`: the end marker, a blank record, a start
/// record, or a name-tagged payload; a tag outside the fixed table is an
/// `UnknownAttribute` error carrying that tag.
pub open spec fn spec_read_attribute(d: Seq<u8>, pos: int) -> Result<
    (AssetAttributeView, int),
    AssetErrorView,
> {
    if !can_read(d, pos, 4) {
        Err(AssetErrorView::Parser("attribute header"@))
    } else if is_end_marker(d, pos) {
        Ok((AssetAttributeView::End, pos + 4))
    } else if is_zero4(d, pos) {
        if !can_read(d, pos + 4, 12) {
            Err(AssetErrorView::Parser("attribute blank"@))
        } else {
            Ok((AssetAttributeView::Blank, pos + 16))
        }
    } else {
        let length = le32_at(d, pos);
        let p = pos + 4;
        if length == 1 {
            if !can_read(d, p, 8) {
                Err(AssetErrorView::Parser("attribute start"@))
            } else {
                Ok(
                    (
                        AssetAttributeView::Start {
                            resource_id: le32_at(d, p) as u32,
                            unknown: le32_at(d, p + 4) as u32,
                        },
                        p + 8,
                    ),
                )
            }
        } else {
            if !can_read(d, p, length) {
                Err(AssetErrorView::Parser("attribute name"@))
            } else {
                let name_bytes = d.subrange(p, p + length);
                if !valid_utf8(name_bytes) {
                    Err(AssetErrorView::Parser("attribute name"@))
                } else {
                    spec_read_tagged(d, p + length, decode_utf8(name_bytes))
                }
            }
        }
    }
}

/// The payload that follows a decoded attribute tag.
pub open spec fn spec_read_tagged(d: Seq<u8>, pos: int, name: Seq<char>) -> Result<
    (AssetAttributeView, int),
    AssetErrorView,
> {
    if name == "SOUND"@ {
        match spec_tagged_text(d, pos) {
            Err(e) => Err(e),
            Ok((s, p)) => Ok((AssetAttributeView::Sound(s), p)),
        }
    } else if name == "MUSIC"@ {
        match spec_tagged_text(d, pos) {
            Err(e) => Err(e),
            Ok((s, p)) => Ok((AssetAttributeView::Music(s), p)),
        }
    } else if name == "ANIMATION"@ {
        match spec_tagged_text(d, pos) {
            Err(e) => Err(e),
            Ok((s, p)) => Ok((AssetAttributeView::Animation(s), p)),
        }
    } else if name == "MATERIAL"@ {
        match spec_tagged_text(d, pos) {
            Err(e) => Err(e),
            Ok((s, p)) => Ok((AssetAttributeView::Material(s), p)),
        }
    } else if name == "MESH"@ {
        match spec_tagged_text(d, pos) {
            Err(e) => Err(e),
            Ok((s, p)) => Ok((AssetAttributeView::Mesh(s), p)),
        }
    } else if name == "TEXTURE"@ {
        match spec_tagged_text(d, pos) {
            Err(e) => Err(e),
            Ok((s, p)) => Ok((AssetAttributeView::Texture(s), p)),
        }
    } else if name == "filename"@ {
        if !can_read(d, pos, 1) {
            Err(AssetErrorView::Parser("attribute filename"@))
        } else if d[pos] != 2 {
            Err(AssetErrorView::Parser("attribute filename flag"@))
        } else {
            let p = pos + 1;
            if !can_read(d, p, 4) {
                Err(AssetErrorView::Parser("attribute filename"@))
            } else {
                let len = le32_at(d, p);
                let p2 = p + 4;
                if !can_read(d, p2, len) {
                    Err(AssetErrorView::Parser("attribute filename"@))
                } else {
                    let fb = d.subrange(p2, p2 + len);
                    if !valid_utf8(fb) {
                        Err(AssetErrorView::Parser("attribute filename"@))
                    } else {
                        Ok((AssetAttributeView::Filename(decode_utf8(fb)), p2 + len))
                    }
                }
            }
        }
    } else if name == "file_in_buffer"@ {
        if !can_read(d, pos, 1) {
            Err(AssetErrorView::Parser("attribute buffer"@))
        } else if d[pos] != 4 {
            Err(AssetErrorView::Parser("attribute buffer flag"@))
        } else {
            let p = pos + 1;
            if !can_read(d, p, 4) {
                Err(AssetErrorView::Parser("attribute buffer"@))
            } else {
                let size = le32_at(d, p);
                let p2 = p + 4;
                if !can_read(d, p2, size) {
                    Err(AssetErrorView::Parser("attribute buffer"@))
                } else {
                    Ok(
                        (
                            AssetAttributeView::Content {
                                size: size as u32,
                                bytes: d.subrange(p2, p2 + size),
                            },
                            p2 + size,
                        ),
                    )
                }
            }
        }
    } else {
        Err(AssetErrorView::UnknownAttribute(name))
    }
}

/// Decodes the payload of one of the six name tags.
fn read_tagged_text(d: &[u8], pos: usize) -> (r: Result<(String, usize), AssetErrors>)
    ensures
        spec_tagged_text(d@, pos as int) matches Ok((s, p)) ==> (r matches Ok((s2, p2)) && s2@
            == s && p2 == p),
        spec_tagged_text(d@, pos as int) matches Err(ev) ==> (r matches Err(e) && e@ == ev),
{
    let (len, p) = read_u32_le(d, pos, "attribute value")?;
    let (bytes, p) = read_bytes(d, p, len as usize, "attribute value")?;
    Ok((decode_windows_1252(bytes.as_slice()), p))
}

/// Parses the content at `pos` into an `AssetAttribute` and the position
/// that follows it.
pub fn read_attribute(d: &[u8], pos: usize) -> (r: Result<(AssetAttribute, usize), AssetErrors>)
    ensures
        spec_read_attribute(d@, pos as int) matches Ok((a, p)) ==> (r matches Ok((a2, p2)) && a2@
            == a && p2 == p),
        spec_read_attribute(d@, pos as int) matches Err(ev) ==> (r matches Err(e) && e@ == ev),
{
    let (b0, _) = read_u8(d, pos, "attribute header")?;
    let (b1, _) = read_u8(d, pos + 1, "attribute header")?;
    let (b2, _) = read_u8(d, pos + 2, "attribute header")?;
    let (b3, p) = read_u8(d, pos + 3, "attribute header")?;
    if b0 == 0x52 && b1 == 0x49 && b2 == 0x41 && b3 == 0x50 {
        return Ok((AssetAttribute::End, p));
    }
    if b0 == 0 && b1 == 0 && b2 == 0 && b3 == 0 {
        let p2 = skip_bytes(d, p, 12, "attribute blank")?;
        return Ok((AssetAttribute::Blank, p2));
    }
    let length = (b0 as u32) + 0x100 * (b1 as u32) + 0x1_0000 * (b2 as u32) + 0x100_0000 * (
    b3 as u32);
    if length == 1 {
        let (resource_id, p2) = read_u32_le(d, p, "attribute start")?;
        let (unknown, p3) = read_u32_le(d, p2, "attribute start")?;
        return Ok((AssetAttribute::Start { resource_id, unknown }, p3));
    }
    let (name_bytes, p2) = read_bytes(d, p, length as usize, "attribute name")?;
    let name = match utf8_to_string(name_bytes.as_slice()) {
        Some(s) => s,
        None => {
            return Err(parse_fail("attribute name"));
        },
    };
    if str_eq_chars(name.as_str(), "SOUND") {
        let (s, p3) = read_tagged_text(d, p2)?;
        Ok((AssetAttribute::Sound(s), p3))
    } else if str_eq_chars(name.as_str(), "MUSIC") {
        let (s, p3) = read_tagged_text(d, p2)?;
        Ok((AssetAttribute::Music(s), p3))
    } else if str_eq_chars(name.as_str(), "ANIMATION") {
        let (s, p3) = read_tagged_text(d, p2)?;
        Ok((AssetAttribute::Animation(s), p3))
    } else if str_eq_chars(name.as_str(), "MATERIAL") {
        let (s, p3) = read_tagged_text(d, p2)?;
        Ok((AssetAttribute::Material(s), p3))
    } else if str_eq_chars(name.as_str(), "MESH") {
        let (s, p3) = read_tagged_text(d, p2)?;
        Ok((AssetAttribute::Mesh(s), p3))
    } else if str_eq_chars(name.as_str(), "TEXTURE") {
        let (s, p3) = read_tagged_text(d, p2)?;
        Ok((AssetAttribute::Texture(s), p3))
    } else if str_eq_chars(name.as_str(), "filename") {
        let (flag, p3) = read_u8(d, p2, "attribute filename")?;
        if flag != 2 {
            return Err(parse_fail("attribute filename flag"));
        }
        let (len, p4) = read_u32_le(d, p3, "attribute filename")?;
        let (fb, p5) = read_bytes(d, p4, len as usize, "attribute filename")?;
        match utf8_to_string(fb.as_slice()) {
            Some(s) => Ok((AssetAttribute::Filename(s), p5)),
            None => Err(parse_fail("attribute filename")),
        }
    } else if str_eq_chars(name.as_str(), "file_in_buffer") {
        let (flag, p3) = read_u8(d, p2, "attribute buffer")?;
        if flag != 4 {
            return Err(parse_fail("attribute buffer flag"));
        }
        let (size, p4) = read_u32_le(d, p3, "attribute buffer")?;
        let (bytes, p5) = read_bytes(d, p4, size as usize, "attribute buffer")?;
        Ok((AssetAttribute::Content { size, bytes }, p5))
    } else {
        Err(AssetErrors::UnknownAttributeError(name))
    }
}

} // verus!
