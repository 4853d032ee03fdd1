use vstd::prelude::*;

verus! {

#[verifier::external_type_specification]
#[verifier::external_body]
pub struct ExDds(ddsfile::Dds);

#[verifier::external_type_specification]
#[verifier::external_body]
pub struct ExDdsError(ddsfile::Error);

/// True when ddsfile's Dds::read accepts `bytes` as a Direct Draw Surface
/// container. The decoder reads only its input, so its verdict is a
/// function of the bytes alone; the container grammar is carried by the
/// image library and is not restated here.
pub uninterp spec fn dds_decode_ok(bytes: Seq<u8>) -> bool;

/// Relies on ddsfile's Dds::read: decodes a Direct Draw Surface container
/// from the start of `bytes`, succeeding exactly when `dds_decode_ok` holds
/// of them. The decoded container itself is opaque to the rest of the
/// library; nothing more is assumed of it.
#[verifier::external_body]
pub fn dds_from_bytes(bytes: &[u8]) -> (r: Result<ddsfile::Dds, ddsfile::Error>)
    ensures
        r is Ok <==> dds_decode_ok(bytes@),
{
    ddsfile::Dds::read(bytes)
}

} // verus!
