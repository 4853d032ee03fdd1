use vstd::prelude::*;

verus! {

/// The two-byte sequence that closes a JPEG stream.
pub const JPEG_END: [u8; 2] = [0xFF, 0xD9];

/// True when the two-byte pattern `s` stands in `d` at offset `i`.
pub open spec fn pair_at(d: Seq<u8>, s: Seq<u8>, i: int) -> bool {
    0 <= i && i + 2 <= d.len() && d[i] == s[0] && d[i + 1] == s[1]
}

/// Finds the last offset at which the two-byte `sequence` occurs in `data`.
pub fn find_last_sequence(data: &Vec<u8>, sequence: &[u8; 2]) -> (r: Option<usize>)
    ensures
        r matches Some(p) ==> pair_at(data@, sequence@, p as int) && (forall|j: int|
            p < j ==> !pair_at(data@, sequence@, j)),
        r is None ==> forall|j: int| !pair_at(data@, sequence@, j),
{
    if data.len() < 2 {
        return None;
    }
    let mut i: usize = data.len() - 1;
    loop
        invariant
            2 <= data@.len(),
            1 <= i <= data@.len() - 1,
            forall|j: int| i <= j ==> !pair_at(data@, sequence@, j),
        ensures
            forall|j: int| !pair_at(data@, sequence@, j),
        decreases i,
    {
        if data[i - 1] == sequence[0] && data[i] == sequence[1] {
            return Some(i - 1);
        }
        if i == 1 {
            break;
        }
        i = i - 1;
    }
    None
}

} // verus!
