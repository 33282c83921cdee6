//! The canvas store: one document, one file.
//!
//! `save_canvas_state` computes the exact file text to write;
//! `load_canvas_state` interprets what was read, or the absence of a
//! file. The caller performs the file I/O and reports its own errors.

use vstd::prelude::*;
use crate::doc::{default_doc, lemma_default_doc_wf, CanvasData, CanvasDataV};
use crate::error::StoreError;
use crate::reader::{parse_doc_text, sp_parse_doc};
use crate::writer::{print_doc, sp_print_doc};

verus! {

/// What a load yields from given file content: the default document
/// where no file exists, otherwise exactly the document whose canonical
/// text the file holds.
pub open spec fn sp_load_canvas(file: Option<Seq<char>>) -> Option<CanvasDataV> {
    match file {
        None => Some(default_doc()),
        Some(t) => sp_parse_doc(t),
    }
}

/// The canvas file content after a save: the document's canonical text,
/// whatever was there before.
pub open spec fn canvas_file_after_save(d: CanvasDataV) -> Option<Seq<char>> {
    Some(sp_print_doc(d))
}

/// Serializes the document: the exact text the canvas store writes.
/// Serialization cannot fail.
pub fn save_canvas_state(canvas_data: &CanvasData) -> (text: String)
    ensures
        text@ == sp_print_doc(canvas_data@),
        canvas_file_after_save(canvas_data@) == Some(text@),
{
    print_doc(canvas_data)
}

/// Interprets the canvas file: absence of a file yields the default
/// document, a canonical document text yields its document, and any
/// other content is a deserialization error.
pub fn load_canvas_state(file: Option<&str>) -> (r: Result<CanvasData, StoreError>)
    ensures
        file is None ==> (r matches Ok(d) && d@ == default_doc()),
        file matches Some(t) ==> match sp_parse_doc(t@) {
            Some(dv) => (r matches Ok(d) && d@ == dv),
            None => r == Err::<CanvasData, StoreError>(StoreError::Deserialize),
        },
        match r {
            Ok(d) => sp_load_canvas(match file {
                Some(t) => Some(t@),
                None => None,
            }) == Some(d@) && d.wf(),
            Err(e) => sp_load_canvas(match file {
                Some(t) => Some(t@),
                None => None,
            }) is None && e == StoreError::Deserialize,
        },
{
    match file {
        None => {
            let d = CanvasData::default();
            proof {
                lemma_default_doc_wf();
            }
            Ok(d)
        },
        Some(t) => match parse_doc_text(t) {
            Some(d) => Ok(d),
            None => Err(StoreError::Deserialize),
        },
    }
}

/// Loading with no canvas file yields exactly the default document, not
/// an error.
pub proof fn lemma_load_missing_gives_default()
    ensures
        sp_load_canvas(None) == Some(default_doc()),
        default_doc().wf(),
{
    lemma_default_doc_wf();
}

} // verus!
