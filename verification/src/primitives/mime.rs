use vstd::prelude::*;

verus! {

/// Whether `mime_type` is a MIME type that `tree_magic_fork::from_u8` detects for
/// `bytes`. Which one it gives depends on the machine: without its `staticmime`
/// feature that crate also reads the MIME database under `/usr/share/mime`.
pub uninterp spec fn mime_detected_from(bytes: Seq<u8>, mime_type: Seq<char>) -> bool;

/// The MIME type that `tree_magic_fork::from_u8` detects for `bytes`. Nothing
/// more is promised of it than that it was detected for these bytes
/// (`mime_detected_from`).
#[verifier::external_body]
pub(crate) fn detect_mime_type(bytes: &[u8]) -> (r: String)
    ensures
        mime_detected_from(bytes@, r@),
{
    tree_magic_fork::from_u8(bytes)
}

} // verus!
