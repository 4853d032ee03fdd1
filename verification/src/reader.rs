use vstd::prelude::*;
use vstd::slice::{slice_subrange, slice_to_vec};
use vstd::string::StringExecFns;
use crate::errors::{AssetErrorView, AssetErrors};

verus! {

/// True when `n` more bytes are available in `d` at offset `pos`.
pub open spec fn can_read(d: Seq<u8>, pos: int, n: int) -> bool {
    0 <= pos && pos + n <= d.len()
}

/// The value of the two bytes of `d` at `pos`, read as a little-endian
/// unsigned integer.
pub open spec fn le16_at(d: Seq<u8>, pos: int) -> int
    recommends
        can_read(d, pos, 2),
{
    d[pos] + 0x100 * d[pos + 1]
}

/// The value of the four bytes of `d` at `pos`, read as a little-endian
/// unsigned integer.
pub open spec fn le32_at(d: Seq<u8>, pos: int) -> int
    recommends
        can_read(d, pos, 4),
{
    d[pos] + 0x100 * d[pos + 1] + 0x1_0000 * d[pos + 2] + 0x100_0000 * d[pos + 3]
}

/// Builds the structural-failure error for the field named by `label`.
pub fn parse_fail(label: &str) -> (e: AssetErrors)
    ensures
        e@ == AssetErrorView::Parser(label@),
{
    AssetErrors::ParserError(String::from_str(label))
}

/// Reads one byte at `pos`; fails with a `ParserError` labelled `label` when
/// the source is exhausted.
pub fn read_u8(d: &[u8], pos: usize, label: &str) -> (r: Result<(u8, usize), AssetErrors>)
    ensures
        can_read(d@, pos as int, 1) ==> (r matches Ok((v, p)) && v == d@[pos as int] && p
            == pos + 1),
        !can_read(d@, pos as int, 1) ==> (r matches Err(e) && e@ == AssetErrorView::Parser(
            label@,
        )),
{
    if pos < d.len() {
        Ok((d[pos], pos + 1))
    } else {
        Err(parse_fail(label))
    }
}

/// Reads a 2-byte little-endian unsigned integer at `pos`.
pub fn read_u16_le(d: &[u8], pos: usize, label: &str) -> (r: Result<(u16, usize), AssetErrors>)
    ensures
        can_read(d@, pos as int, 2) ==> (r matches Ok((v, p)) && v == le16_at(d@, pos as int)
            && p == pos + 2),
        !can_read(d@, pos as int, 2) ==> (r matches Err(e) && e@ == AssetErrorView::Parser(
            label@,
        )),
{
    if d.len() >= 2 && pos <= d.len() - 2 {
        let v = (d[pos] as u16) + 0x100 * (d[pos + 1] as u16);
        Ok((v, pos + 2))
    } else {
        Err(parse_fail(label))
    }
}

/// Reads a 4-byte little-endian unsigned integer at `pos`.
pub fn read_u32_le(d: &[u8], pos: usize, label: &str) -> (r: Result<(u32, usize), AssetErrors>)
    ensures
        can_read(d@, pos as int, 4) ==> (r matches Ok((v, p)) && v == le32_at(d@, pos as int)
            && p == pos + 4),
        !can_read(d@, pos as int, 4) ==> (r matches Err(e) && e@ == AssetErrorView::Parser(
            label@,
        )),
{
    if d.len() >= 4 && pos <= d.len() - 4 {
        let v = (d[pos] as u32) + 0x100 * (d[pos + 1] as u32) + 0x1_0000 * (d[pos + 2] as u32)
            + 0x100_0000 * (d[pos + 3] as u32);
        Ok((v, pos + 4))
    } else {
        Err(parse_fail(label))
    }
}

/// Reads `n` raw bytes at `pos`.
pub fn read_bytes(d: &[u8], pos: usize, n: usize, label: &str) -> (r: Result<
    (Vec<u8>, usize),
    AssetErrors,
>)
    ensures
        can_read(d@, pos as int, n as int) ==> (r matches Ok((v, p)) && v@ == d@.subrange(
            pos as int,
            pos + n,
        ) && p == pos + n),
        !can_read(d@, pos as int, n as int) ==> (r matches Err(e) && e@
            == AssetErrorView::Parser(label@)),
{
    if n <= d.len() && pos <= d.len() - n {
        let s = slice_subrange(d, pos, pos + n);
        Ok((slice_to_vec(s), pos + n))
    } else {
        Err(parse_fail(label))
    }
}

/// Advances `pos` over `n` bytes whose content the format reserves but leaves
/// unparsed.
pub fn skip_bytes(d: &[u8], pos: usize, n: usize, label: &str) -> (r: Result<usize, AssetErrors>)
    ensures
        can_read(d@, pos as int, n as int) ==> (r matches Ok(p) && p == pos + n),
        !can_read(d@, pos as int, n as int) ==> (r matches Err(e) && e@
            == AssetErrorView::Parser(label@)),
{
    if n <= d.len() && pos <= d.len() - n {
        Ok(pos + n)
    } else {
        Err(parse_fail(label))
    }
}

} // verus!

