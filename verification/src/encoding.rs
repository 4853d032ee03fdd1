use vstd::prelude::*;
use vstd::utf8::{decode_utf8, valid_utf8};

verus! {

/// The character sequence that the legacy Western text decoding yields for
/// `bytes`: the decoder first sniffs for a byte-order mark and otherwise
/// maps each byte through the single-byte code page table. Either way the
/// result is a function of the bytes alone; the table is carried by the
/// encoding library and is not restated here.
pub uninterp spec fn windows_1252_of(bytes: Seq<u8>) -> Seq<char>;

/// Relies on encoding_rs's WINDOWS_1252.decode: the decoded text is a
/// function of the input bytes alone.
#[verifier::external_body]
pub fn decode_windows_1252(bytes: &[u8]) -> (r: String)
    ensures
        r@ == windows_1252_of(bytes@),
{
    let (text, _, _) = encoding_rs::WINDOWS_1252.decode(bytes);
    text.into_owned()
}

/// Relies on std's String::from_utf8: succeeds exactly on valid UTF-8 input
/// and then yields the decoded characters.
#[verifier::external_body]
pub fn utf8_to_string(bytes: &[u8]) -> (r: Option<String>)
    ensures
        r is Some <==> valid_utf8(bytes@),
        r matches Some(s) ==> s@ == decode_utf8(bytes@),
{
    match String::from_utf8(bytes.to_vec()) {
        Ok(s) => Some(s),
        Err(_) => None,
    }
}

} // verus!
