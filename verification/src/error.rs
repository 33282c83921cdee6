//! The errors the two stores report.

use vstd::prelude::*;

verus! {

/// An error of one of the store operations.
///
/// `Format` is the rejection of a data URL without a comma separator,
/// `Decode(m)` the rejection of a payload that is not valid base64
/// (`m` is the decoder's own description), and `Deserialize` the
/// rejection of a canvas file that is not a canonical document text.
/// I/O failures never reach this crate: the caller performs the reads
/// and writes and reports those itself.
#[derive(Debug, PartialEq)]
pub enum StoreError {
    Format,
    Decode(String),
    Deserialize,
}

/// The message text of an error, as the UI shows it.
pub open spec fn sp_message(e: StoreError) -> Seq<char> {
    match e {
        StoreError::Format => "Invalid image data format"@,
        StoreError::Decode(m) => "Failed to decode image data: "@ + m@,
        StoreError::Deserialize => "Failed to deserialize canvas data"@,
    }
}

impl StoreError {
    /// The human-readable description of this error.
    pub fn message(&self) -> (m: String)
        ensures
            m@ == sp_message(*self),
    {
        match self {
            StoreError::Format => String::from_str("Invalid image data format"),
            StoreError::Decode(d) => String::from_str("Failed to decode image data: ").concat(
                d.as_str(),
            ),
            StoreError::Deserialize => String::from_str("Failed to deserialize canvas data"),
        }
    }
}

} // verus!
