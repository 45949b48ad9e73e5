//! Text out of PDF documents.

use vstd::prelude::*;

verus! {

/// Loads the document with `lopdf::Document::load_mem` and extracts one page
/// with `lopdf::Document::extract_text`; `None` where either reports an
/// error. Nothing is promised of the text: `lopdf` may load the objects of
/// a document on several threads, and which copy of a doubly stored object
/// it keeps is then not fixed by the bytes alone.
#[verifier::external_body]
pub(crate) fn extract_page(pdf: &[u8], page: u32) -> (r: Option<String>) {
    match lopdf::Document::load_mem(pdf) {
        Ok(document) => match document.extract_text(&[page]) {
            Ok(text) => Some(text),
            Err(_) => None,
        },
        Err(_) => None,
    }
}

} // verus!
