use vstd::prelude::*;
use vstd::slice::slice_subrange;
use vstd::utf8::{decode_utf8, valid_utf8};
use super::attribute::{is_end_marker, is_zero4};
use super::bookmark::AssetBookmark;
use super::text::content::{content_views, TextContent, TextContentView};
use super::text::parse::{classify_fragments, spec_text_nodes, split_crlf};
use super::texture::{dds_decode_ok, dds_from_bytes};
use super::AssetType;
use crate::encoding::{decode_windows_1252, utf8_to_string, windows_1252_of};
use crate::errors::{AssetErrorView, AssetErrors};
use crate::reader::{can_read, le32_at, parse_fail, read_bytes, read_u32_le, read_u8, skip_bytes};
use crate::strutil::{str_eq_chars, str_views};

verus! {

/// The content-specific payload decoded for one asset.
pub enum AssetContent {
    /// A sound or music payload: its filename and raw bytes.
    Sound { filename: String, size: u32, bytes: Vec<u8> },
    /// A texture payload: its dimensions and the decoded Direct Draw Surface.
    Texture { width: u32, height: u32, dds: ddsfile::Dds },
    /// A structured text payload: a list of text blocks.
    Text { contents: Vec<TextContent> },
    /// A content kind this library does not decode.
    NotSupported,
}

/// Mathematical image of a content payload. The Direct Draw Surface is
/// opaque and leaves no trace here beyond the dimensions read from the
/// texture header.
pub enum AssetContentView {
    Sound { filename: Seq<char>, size: u32, bytes: Seq<u8> },
    Texture { width: u32, height: u32 },
    Text { contents: Seq<TextContentView> },
    NotSupported,
}

impl View for AssetContent {
    type V = AssetContentView;

    open spec fn view(&self) -> AssetContentView {
        match self {
            AssetContent::Sound { filename, size, bytes } => AssetContentView::Sound {
                filename: filename@,
                size: *size,
                bytes: bytes@,
            },
            AssetContent::Texture { width, height, dds: _ } => AssetContentView::Texture {
                width: *width,
                height: *height,
            },
            AssetContent::Text { contents } => AssetContentView::Text {
                contents: content_views(contents@),
            },
            AssetContent::NotSupported => AssetContentView::NotSupported,
        }
    }
}

/// The view of an optional decoded string.
pub open spec fn oview(o: Option<String>) -> Option<Seq<char>> {
    match o {
        Some(s) => Some(s@),
        None => None,
    }
}

/// The view of an optional sized byte buffer.
pub open spec fn bufview(o: Option<(u32, Vec<u8>)>) -> Option<(u32, Seq<u8>)> {
    match o {
        Some((n, v)) => Some((n, v@)),
        None => None,
    }
}

/// One round of the sound attribute loop at `pos`: past the fail offset the
/// decode is out of bounds; an exhausted stream yields `NotSupported`; a
/// `filename` or `file_in_buffer` attribute fills its slot, any other name
/// is skipped; the round after which both slots are full yields the sound.
pub open spec fn spec_read_sound_loop(
    d: Seq<u8>,
    pos: int,
    fail: int,
    filename: Option<Seq<char>>,
    buffer: Option<(u32, Seq<u8>)>,
) -> Result<AssetContentView, AssetErrorView>
    decreases d.len() - pos,
    when 0 <= pos <= d.len()
{
    if pos >= fail {
        Err(AssetErrorView::Parser("out of bounds"@))
    } else if !can_read(d, pos, 4) {
        Ok(AssetContentView::NotSupported)
    } else {
        let nlen = le32_at(d, pos);
        let p1 = pos + 4;
        if !can_read(d, p1, nlen) {
            Ok(AssetContentView::NotSupported)
        } else {
            let name = windows_1252_of(d.subrange(p1, p1 + nlen));
            let p2 = p1 + nlen;
            if !can_read(d, p2, 1) {
                Ok(AssetContentView::NotSupported)
            } else {
                let flag = d[p2];
                let p3 = p2 + 1;
                if name == "filename"@ {
                    if flag != 2 {
                        Err(AssetErrorView::Parser("sound filename flag"@))
                    } else if !can_read(d, p3, 4) {
                        Ok(AssetContentView::NotSupported)
                    } else {
                        let vlen = le32_at(d, p3);
                        let p4 = p3 + 4;
                        if !can_read(d, p4, vlen) {
                            Ok(AssetContentView::NotSupported)
                        } else {
                            let fname = windows_1252_of(d.subrange(p4, p4 + vlen));
                            let p5 = p4 + vlen;
                            match buffer {
                                Some((bs, bb)) => Ok(
                                    AssetContentView::Sound {
                                        filename: fname,
                                        size: bs,
                                        bytes: bb,
                                    },
                                ),
                                None => spec_read_sound_loop(d, p5, fail, Some(fname), buffer),
                            }
                        }
                    }
                } else if name == "file_in_buffer"@ {
                    if flag != 4 {
                        Err(AssetErrorView::Parser("sound buffer flag"@))
                    } else if !can_read(d, p3, 4) {
                        Ok(AssetContentView::NotSupported)
                    } else {
                        let bsize = le32_at(d, p3);
                        let p4 = p3 + 4;
                        if !can_read(d, p4, bsize) {
                            Ok(AssetContentView::NotSupported)
                        } else {
                            let bts = d.subrange(p4, p4 + bsize);
                            let p5 = p4 + bsize;
                            match filename {
                                Some(f) => Ok(
                                    AssetContentView::Sound {
                                        filename: f,
                                        size: bsize as u32,
                                        bytes: bts,
                                    },
                                ),
                                None => spec_read_sound_loop(
                                    d,
                                    p5,
                                    fail,
                                    filename,
                                    Some((bsize as u32, bts)),
                                ),
                            }
                        }
                    }
                } else {
                    match (filename, buffer) {
                        (Some(f), Some((bs, bb))) => Ok(
                            AssetContentView::Sound { filename: f, size: bs, bytes: bb },
                        ),
                        (f, b) => spec_read_sound_loop(d, p3, fail, f, b),
                    }
                }
            }
        }
    }
}

/// The sound payload decoded from `pos` on, bounded by the bookmark's
/// declared `size` plus the fixed slack.
pub open spec fn spec_read_sound(d: Seq<u8>, pos: int, size: u32) -> Result<
    AssetContentView,
    AssetErrorView,
> {
    spec_read_sound_loop(d, pos, pos + size + 16, None, None)
}

/// The recursive worker behind `read_sound`.
fn read_sound_attrs(
    d: &[u8],
    pos: usize,
    fail: u128,
    filename: Option<String>,
    buffer: Option<(u32, Vec<u8>)>,
) -> (r: Result<AssetContent, AssetErrors>)
    requires
        pos <= d@.len(),
    ensures
        spec_read_sound_loop(d@, pos as int, fail as int, oview(filename), bufview(buffer))
            matches Ok(cv) ==> (r matches Ok(c) && c@ == cv),
        spec_read_sound_loop(d@, pos as int, fail as int, oview(filename), bufview(buffer))
            matches Err(ev) ==> (r matches Err(e) && e@ == ev),
    decreases d@.len() - pos,
{
    if pos as u128 >= fail {
        return Err(parse_fail("out of bounds"));
    }
    let (nlen, p1) = match read_u32_le(d, pos, "sound attribute") {
        Ok(v) => v,
        Err(_) => {
            return Ok(AssetContent::NotSupported);
        },
    };
    let (nbytes, p2) = match read_bytes(d, p1, nlen as usize, "sound attribute") {
        Ok(v) => v,
        Err(_) => {
            return Ok(AssetContent::NotSupported);
        },
    };
    let name = decode_windows_1252(nbytes.as_slice());
    let (flag, p3) = match read_u8(d, p2, "sound attribute") {
        Ok(v) => v,
        Err(_) => {
            return Ok(AssetContent::NotSupported);
        },
    };
    if str_eq_chars(name.as_str(), "filename") {
        if flag != 2 {
            return Err(parse_fail("sound filename flag"));
        }
        let (vlen, p4) = match read_u32_le(d, p3, "sound attribute") {
            Ok(v) => v,
            Err(_) => {
                return Ok(AssetContent::NotSupported);
            },
        };
        let (vbytes, p5) = match read_bytes(d, p4, vlen as usize, "sound attribute") {
            Ok(v) => v,
            Err(_) => {
                return Ok(AssetContent::NotSupported);
            },
        };
        let fname = decode_windows_1252(vbytes.as_slice());
        match buffer {
            Some((bs, bb)) => Ok(AssetContent::Sound { filename: fname, size: bs, bytes: bb }),
            None => read_sound_attrs(d, p5, fail, Some(fname), None),
        }
    } else if str_eq_chars(name.as_str(), "file_in_buffer") {
        if flag != 4 {
            return Err(parse_fail("sound buffer flag"));
        }
        let (bsize, p4) = match read_u32_le(d, p3, "sound attribute") {
            Ok(v) => v,
            Err(_) => {
                return Ok(AssetContent::NotSupported);
            },
        };
        let (bbytes, p5) = match read_bytes(d, p4, bsize as usize, "sound attribute") {
            Ok(v) => v,
            Err(_) => {
                return Ok(AssetContent::NotSupported);
            },
        };
        match filename {
            Some(f) => Ok(AssetContent::Sound { filename: f, size: bsize, bytes: bbytes }),
            None => read_sound_attrs(d, p5, fail, None, Some((bsize, bbytes))),
        }
    } else {
        match (filename, buffer) {
            (Some(f), Some((bs, bb))) => Ok(
                AssetContent::Sound { filename: f, size: bs, bytes: bb },
            ),
            (f, b) => read_sound_attrs(d, p3, fail, f, b),
        }
    }
}

/// The fixed texture header at `pos`: a 16-byte header introduced by its
/// length, the width and height among four 32-bit fields, a marker byte, a
/// reserved region, and a length-prefixed tail; the returned position is
/// where the image container starts.
pub open spec fn spec_texture_header(d: Seq<u8>, pos: int) -> Result<
    (u32, u32, int),
    AssetErrorView,
> {
    if !can_read(d, pos, 1) {
        Err(AssetErrorView::Parser("texture header length"@))
    } else if d[pos] != 0x10 {
        Err(AssetErrorView::Parser("texture header length"@))
    } else {
        let p1 = pos + 1;
        if !can_read(d, p1, 16) {
            Err(AssetErrorView::Parser("texture dimensions"@))
        } else {
            let width = le32_at(d, p1 + 4) as u32;
            let height = le32_at(d, p1 + 8) as u32;
            let p2 = p1 + 16;
            if !can_read(d, p2, 1) {
                Err(AssetErrorView::Parser("texture marker"@))
            } else if d[p2] != 0x64 {
                Err(AssetErrorView::Parser("texture marker"@))
            } else {
                let p3 = p2 + 1;
                if !can_read(d, p3, 48) {
                    Err(AssetErrorView::Parser("texture reserved"@))
                } else {
                    let p4 = p3 + 48;
                    if !can_read(d, p4, 1) {
                        Err(AssetErrorView::Parser("texture tail length"@))
                    } else {
                        let tl = d[p4];
                        let p5 = p4 + 1;
                        if !can_read(d, p5, tl as int) {
                            Err(AssetErrorView::Parser("texture tail"@))
                        } else {
                            Ok((width, height, p5 + tl))
                        }
                    }
                }
            }
        }
    }
}

/// The state of the reference loop of one text block when it ends: either
/// the end marker closed the whole asset, or a non-zero lookahead named the
/// length of the block's content.
pub enum RefsEnd {
    Finished(Seq<Seq<char>>, int),
    Length(Seq<Seq<char>>, int, int),
}

/// The reference strings of one text block from `pos` on, appended to
/// `refs`: each reference is a length-prefixed string with a confirm byte,
/// and a four-byte lookahead decides whether another reference follows
/// (zero) or the block's content length was read (non-zero).
pub open spec fn spec_text_refs(d: Seq<u8>, pos: int, refs: Seq<Seq<char>>) -> Result<
    RefsEnd,
    AssetErrorView,
>
    decreases d.len() - pos,
    when 0 <= pos <= d.len()
{
    if !can_read(d, pos, 4) {
        Err(AssetErrorView::Parser("text ref length"@))
    } else if is_end_marker(d, pos) {
        Ok(RefsEnd::Finished(refs, pos + 4))
    } else {
        let rlen = le32_at(d, pos);
        let p1 = pos + 4;
        if !can_read(d, p1, rlen) {
            Err(AssetErrorView::Parser("text ref"@))
        } else {
            let rb = d.subrange(p1, p1 + rlen);
            if !valid_utf8(rb) {
                Err(AssetErrorView::Parser("text ref"@))
            } else {
                let p2 = p1 + rlen;
                if !can_read(d, p2, 1) {
                    Err(AssetErrorView::Parser("text ref confirm"@))
                } else if d[p2] != 2 {
                    Err(AssetErrorView::Parser("text ref confirm"@))
                } else {
                    let p3 = p2 + 1;
                    if !can_read(d, p3, 4) {
                        Err(AssetErrorView::Parser("text peek"@))
                    } else if is_zero4(d, p3) {
                        spec_text_refs(d, p3 + 4, refs.push(decode_utf8(rb)))
                    } else {
                        Ok(RefsEnd::Length(refs.push(decode_utf8(rb)), le32_at(d, p3), p3 + 4))
                    }
                }
            }
        }
    }
}

/// The reference loop only moves forward through the stream.
proof fn lemma_text_refs_pos(d: Seq<u8>, pos: int, refs: Seq<Seq<char>>)
    requires
        0 <= pos <= d.len(),
    ensures
        spec_text_refs(d, pos, refs) matches Ok(RefsEnd::Finished(rs, p)) ==> pos < p <= d.len(),
        spec_text_refs(d, pos, refs) matches Ok(RefsEnd::Length(rs, tl, p)) ==> pos < p <= d.len(),
    decreases d.len() - pos,
{
    if can_read(d, pos, 4) && !is_end_marker(d, pos) {
        let rlen = le32_at(d, pos);
        let p1 = pos + 4;
        if can_read(d, p1, rlen) {
            let rb = d.subrange(p1, p1 + rlen);
            if valid_utf8(rb) {
                let p2 = p1 + rlen;
                if can_read(d, p2, 1) && d[p2] == 2 {
                    let p3 = p2 + 1;
                    if can_read(d, p3, 4) && is_zero4(d, p3) {
                        lemma_text_refs_pos(d, p3 + 4, refs.push(decode_utf8(rb)));
                    }
                }
            }
        }
    }
}

/// The text blocks decoded from `pos` on, appended to `acc`: each block's
/// references, then its content, split at line separators and classified;
/// a reference loop that yields no references ends the run, as does the end
/// marker after at least one reference.
pub open spec fn spec_text_blocks(d: Seq<u8>, pos: int, acc: Seq<TextContentView>) -> Result<
    Seq<TextContentView>,
    AssetErrorView,
>
    decreases d.len() - pos,
    when 0 <= pos <= d.len()
{
    match spec_text_refs(d, pos, Seq::empty()) {
        Err(e) => Err(e),
        Ok(RefsEnd::Finished(refs, p)) => {
            if refs.len() == 0 {
                Ok(acc)
            } else {
                Ok(
                    acc.push(
                        TextContentView {
                            refs,
                            nodes: spec_text_nodes(windows_1252_of(Seq::empty())),
                        },
                    ),
                )
            }
        },
        Ok(RefsEnd::Length(refs, tlen, p)) => {
            if refs.len() == 0 {
                Ok(acc)
            } else if p <= pos || tlen < 0 || !can_read(d, p, tlen) {
                Err(AssetErrorView::Parser("text content"@))
            } else {
                let content = windows_1252_of(d.subrange(p, p + tlen));
                spec_text_blocks(
                    d,
                    p + tlen,
                    acc.push(TextContentView { refs, nodes: spec_text_nodes(content) }),
                )
            }
        },
    }
}

/// The recursive worker behind `read_text`: decodes the reference loop of
/// one block.
fn read_text_refs(d: &[u8], pos: usize, refs: Vec<String>) -> (r: Result<
    (Vec<String>, bool, u32, usize),
    AssetErrors,
>)
    requires
        pos <= d@.len(),
    ensures
        spec_text_refs(d@, pos as int, str_views(refs@)) matches Err(ev) ==> (r matches Err(e)
            && e@ == ev),
        spec_text_refs(d@, pos as int, str_views(refs@)) matches Ok(RefsEnd::Finished(rs, p))
            ==> (r matches Ok(o) && str_views(o.0@) == rs && o.1 == true && o.3 == p),
        spec_text_refs(d@, pos as int, str_views(refs@)) matches Ok(RefsEnd::Length(rs, tl, p))
            ==> (r matches Ok(o) && str_views(o.0@) == rs && o.1 == false && o.2 == tl && o.3
            == p),
    decreases d@.len() - pos,
{
    let (b0, _) = read_u8(d, pos, "text ref length")?;
    let (b1, _) = read_u8(d, pos + 1, "text ref length")?;
    let (b2, _) = read_u8(d, pos + 2, "text ref length")?;
    let (b3, p0) = read_u8(d, pos + 3, "text ref length")?;
    if b0 == 0x52 && b1 == 0x49 && b2 == 0x41 && b3 == 0x50 {
        return Ok((refs, true, 0, p0));
    }
    let rlen = (b0 as u32) + 0x100 * (b1 as u32) + 0x1_0000 * (b2 as u32) + 0x100_0000 * (
    b3 as u32);
    let (rb, p1) = read_bytes(d, p0, rlen as usize, "text ref")?;
    let rstr = match utf8_to_string(rb.as_slice()) {
        Some(s) => s,
        None => {
            return Err(parse_fail("text ref"));
        },
    };
    let (confirm, p2) = read_u8(d, p1, "text ref confirm")?;
    if confirm != 2 {
        return Err(parse_fail("text ref confirm"));
    }
    let (peek, p3) = read_bytes(d, p2, 4, "text peek")?;
    let mut refs2 = refs;
    proof {
        assert(str_views(refs2@.push(rstr)) =~= str_views(refs2@).push(rstr@));
    }
    refs2.push(rstr);
    if peek[0] == 0 && peek[1] == 0 && peek[2] == 0 && peek[3] == 0 {
        read_text_refs(d, p3, refs2)
    } else {
        let tlen = (peek[0] as u32) + 0x100 * (peek[1] as u32) + 0x1_0000 * (peek[2] as u32)
            + 0x100_0000 * (peek[3] as u32);
        Ok((refs2, false, tlen, p3))
    }
}

/// The recursive worker behind `read_text`: decodes whole text blocks.
fn read_text_blocks(d: &[u8], pos: usize, contents: Vec<TextContent>) -> (r: Result<
    Vec<TextContent>,
    AssetErrors,
>)
    requires
        pos <= d@.len(),
    ensures
        spec_text_blocks(d@, pos as int, content_views(contents@)) matches Ok(cs) ==> (r matches
            Ok(v) && content_views(v@) == cs),
        spec_text_blocks(d@, pos as int, content_views(contents@)) matches Err(ev) ==> (r matches
            Err(e) && e@ == ev),
    decreases d@.len() - pos,
{
    let fresh: Vec<String> = Vec::new();
    proof {
        assert(str_views(fresh@) =~= Seq::<Seq<char>>::empty());
        lemma_text_refs_pos(d@, pos as int, Seq::empty());
    }
    let (refs, finished, tlen, p) = read_text_refs(d, pos, fresh)?;
    if refs.len() == 0 {
        proof {
            assert(str_views(refs@) =~= Seq::<Seq<char>>::empty());
        }
        return Ok(contents);
    }
    if finished {
        let (empty_bytes, _) = read_bytes(d, p, 0, "text content")?;
        let content = decode_windows_1252(empty_bytes.as_slice());
        proof {
            assert(d@.subrange(p as int, p as int) =~= Seq::<u8>::empty());
        }
        let parts = split_crlf(content.as_str());
        let nodes = classify_fragments(&parts);
        let block = TextContent { refs, nodes };
        let mut contents2 = contents;
        proof {
            assert(content_views(contents2@.push(block)) =~= content_views(contents2@).push(
                block@,
            ));
        }
        contents2.push(block);
        Ok(contents2)
    } else {
        let (cbytes, p2) = read_bytes(d, p, tlen as usize, "text content")?;
        let content = decode_windows_1252(cbytes.as_slice());
        let parts = split_crlf(content.as_str());
        let nodes = classify_fragments(&parts);
        let block = TextContent { refs, nodes };
        let mut contents2 = contents;
        proof {
            assert(content_views(contents2@.push(block)) =~= content_views(contents2@).push(
                block@,
            ));
        }
        contents2.push(block);
        read_text_blocks(d, p2, contents2)
    }
}

/// The content that an asset of the given type decodes to from `pos` on:
/// the exact payload for text and sound, the dimensions for a texture, and
/// `NotSupported` for every other type.
pub open spec fn spec_read_content(d: Seq<u8>, pos: int, ty: AssetType, size: u32) -> Result<
    AssetContentView,
    AssetErrorView,
> {
    match ty {
        AssetType::Text => match spec_text_blocks(d, pos, Seq::empty()) {
            Ok(cs) => Ok(AssetContentView::Text { contents: cs }),
            Err(e) => Err(e),
        },
        AssetType::Sound => spec_read_sound(d, pos, size),
        AssetType::Music => spec_read_sound(d, pos, size),
        AssetType::Texture => match spec_texture_header(d, pos) {
            Ok((w, h, p)) => if dds_decode_ok(d.subrange(p, d.len() as int)) {
                Ok(AssetContentView::Texture { width: w, height: h })
            } else {
                Err(AssetErrorView::Parser("texture dds"@))
            },
            Err(e) => Err(e),
        },
        _ => Ok(AssetContentView::NotSupported),
    }
}

impl AssetContent {
    /// Decodes a sound or music payload at `pos`, bounded by the bookmark's
    /// declared size.
    pub fn read_sound(d: &[u8], pos: usize, bookmark: &AssetBookmark) -> (r: Result<
        AssetContent,
        AssetErrors,
    >)
        requires
            pos <= d@.len(),
        ensures
            spec_read_sound(d@, pos as int, bookmark.size) matches Ok(cv) ==> (r matches Ok(c)
                && c@ == cv),
            spec_read_sound(d@, pos as int, bookmark.size) matches Err(ev) ==> (r matches Err(e)
                && e@ == ev),
    {
        let fail: u128 = (pos as u128) + (bookmark.size as u128) + 16;
        read_sound_attrs(d, pos, fail, None, None)
    }

    /// Decodes a texture payload at `pos`: the fixed header, then exactly
    /// the bytes that follow it handed verbatim to the image container
    /// decoder, whose named verdict on them decides success.
    pub fn read_texture(d: &[u8], pos: usize, _bookmark: &AssetBookmark) -> (r: Result<
        AssetContent,
        AssetErrors,
    >)
        ensures
            spec_texture_header(d@, pos as int) matches Err(ev) ==> (r matches Err(e) && e@
                == ev),
            spec_texture_header(d@, pos as int) matches Ok((w, h, p)) ==> ({
                if dds_decode_ok(d@.subrange(p, d@.len() as int)) {
                    r matches Ok(c) && c@ == (AssetContentView::Texture { width: w, height: h })
                } else {
                    r matches Err(e) && e@ == AssetErrorView::Parser("texture dds"@)
                }
            }),
    {
        let (hlen, p) = read_u8(d, pos, "texture header length")?;
        if hlen != 0x10 {
            return Err(parse_fail("texture header length"));
        }
        let (_u1, p) = read_u32_le(d, p, "texture dimensions")?;
        let (width, p) = read_u32_le(d, p, "texture dimensions")?;
        let (height, p) = read_u32_le(d, p, "texture dimensions")?;
        let (_u2, p) = read_u32_le(d, p, "texture dimensions")?;
        let (marker, p) = read_u8(d, p, "texture marker")?;
        if marker != 0x64 {
            return Err(parse_fail("texture marker"));
        }
        let p = skip_bytes(d, p, 48, "texture reserved")?;
        let (tl, p) = read_u8(d, p, "texture tail length")?;
        let p = skip_bytes(d, p, tl as usize, "texture tail")?;
        let rest = slice_subrange(d, p, d.len());
        match dds_from_bytes(rest) {
            Ok(dds) => Ok(AssetContent::Texture { width, height, dds }),
            Err(_) => Err(parse_fail("texture dds")),
        }
    }

    /// Decodes a structured text payload at `pos`.
    pub fn read_text(d: &[u8], pos: usize, _bookmark: &AssetBookmark) -> (r: Result<
        AssetContent,
        AssetErrors,
    >)
        requires
            pos <= d@.len(),
        ensures
            spec_text_blocks(d@, pos as int, Seq::empty()) matches Ok(cs) ==> (r matches Ok(c)
                && c@ == AssetContentView::Text { contents: cs }),
            spec_text_blocks(d@, pos as int, Seq::empty()) matches Err(ev) ==> (r matches Err(e)
                && e@ == ev),
    {
        let fresh: Vec<TextContent> = Vec::new();
        proof {
            assert(content_views(fresh@) =~= Seq::<TextContentView>::empty());
        }
        let blocks = read_text_blocks(d, pos, fresh)?;
        Ok(AssetContent::Text { contents: blocks })
    }

    /// Decodes the content payload of one asset at `pos`, dispatching on the
    /// bookmark's asset type.
    pub fn read(d: &[u8], pos: usize, bookmark: &AssetBookmark) -> (r: Result<
        AssetContent,
        AssetErrors,
    >)
        requires
            pos <= d@.len(),
        ensures
            spec_read_content(d@, pos as int, bookmark.asset_type, bookmark.size) matches Ok(cv)
                ==> (r matches Ok(c) && c@ == cv),
            spec_read_content(d@, pos as int, bookmark.asset_type, bookmark.size) matches Err(ev)
                ==> (r matches Err(e) && e@ == ev),
    {
        match bookmark.asset_type {
            AssetType::Text => Self::read_text(d, pos, bookmark),
            AssetType::Sound => Self::read_sound(d, pos, bookmark),
            AssetType::Music => Self::read_sound(d, pos, bookmark),
            AssetType::Texture => Self::read_texture(d, pos, bookmark),
            _ => Ok(AssetContent::NotSupported),
        }
    }
}

} // verus!
