//! The store protocol: how each operation changes the file it owns.
//!
//! The functions of `canvas` and `image` compute texts and bytes; the
//! caller mirrors them to disk. These transition functions say what the
//! file holds after each operation, and the lemmas state the laws the
//! protocol obeys: a failed save writes nothing, and a delete leaves
//! nothing for a second delete to fail on.

use vstd::prelude::*;
use crate::error::StoreError;

verus! {

/// The image file after a save whose decode step returned `r`: the bytes
/// are written only on success; any failure leaves the file as it was.
pub open spec fn image_file_after_save(
    file: Option<Seq<u8>>,
    r: Result<Vec<u8>, StoreError>,
) -> Option<Seq<u8>> {
    match r {
        Ok(b) => Some(b@),
        Err(_) => file,
    }
}

/// The image file after a delete: gone, whatever it held.
pub open spec fn image_file_after_delete(file: Option<Seq<u8>>) -> Option<Seq<u8>> {
    None
}

/// Whether a delete touches the file system at all: only where a file
/// exists; with no file the operation succeeds without an action.
pub open spec fn delete_performs_removal(file: Option<Seq<u8>>) -> bool {
    file is Some
}

/// The delete decision: remove the image file only where one exists.
pub fn delete_header_image(file_exists: bool) -> (remove: bool)
    ensures
        remove == file_exists,
{
    file_exists
}

/// A save that failed — a missing comma, or a payload that is not valid
/// base64 — leaves the stored image file untouched.
pub proof fn lemma_failed_save_keeps_file(file: Option<Seq<u8>>, r: Result<Vec<u8>, StoreError>)
    requires
        r is Err,
    ensures
        image_file_after_save(file, r) == file,
{
}

/// After a delete the file is gone, so a second delete in a row finds no
/// file, performs no removal, and succeeds.
pub proof fn lemma_delete_twice_ok(file: Option<Seq<u8>>)
    ensures
        image_file_after_delete(file) is None,
        !delete_performs_removal(image_file_after_delete(file)),
        image_file_after_delete(image_file_after_delete(file)) == image_file_after_delete(file),
{
}

} // verus!
