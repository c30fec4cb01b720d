//! Decoding either kind of document from its text.
use vstd::prelude::*;

use crate::decode::{DecodeError, Fault};
use crate::descriptor::{
    decode_descriptor_text, descriptor_from_text, RestDescription, RestDescriptionView,
};
use crate::json::parse_json;
use crate::list::{decode_list_text, list_from_text, DirectoryList, DirectoryListView};

verus! {

/// The kinds of document that the discovery service serves.
#[derive(Clone, Copy, PartialEq, Eq, Structural, Debug)]
pub enum DocumentKind {
    DirectoryList,
    ServiceDescriptor,
}

/// A decoded document.
#[derive(Debug, PartialEq)]
pub enum Document {
    DirectoryList(DirectoryList),
    ServiceDescriptor(RestDescription),
}

/// The model of a [`Document`].
pub enum DocumentView {
    DirectoryList(DirectoryListView),
    ServiceDescriptor(RestDescriptionView),
}

impl View for Document {
    type V = DocumentView;

    open spec fn view(&self) -> DocumentView {
        match self {
            Document::DirectoryList(d) => DocumentView::DirectoryList(d@),
            Document::ServiceDescriptor(d) => DocumentView::ServiceDescriptor(d@),
        }
    }
}

/// What the text `t` decodes to as a document of the kind `kind`.
pub open spec fn document_from_text(kind: DocumentKind, t: Seq<char>) -> Result<DocumentView, Fault> {
    match kind {
        DocumentKind::DirectoryList => match list_from_text(t) {
            Ok(d) => Ok(DocumentView::DirectoryList(d)),
            Err(f) => Err(f),
        },
        DocumentKind::ServiceDescriptor => match descriptor_from_text(t) {
            Ok(d) => Ok(DocumentView::ServiceDescriptor(d)),
            Err(f) => Err(f),
        },
    }
}

/// Decodes the text `text` as a document of the kind `kind`. Pure: the same text always
/// gives the same result.
pub fn decode(kind: DocumentKind, text: &str) -> (r: Result<Document, DecodeError>)
    ensures
        match r {
            Ok(d) => document_from_text(kind, text@) == Ok::<DocumentView, Fault>(d@),
            Err(e) => document_from_text(kind, text@) == Err::<DocumentView, Fault>(e@),
        },
{
    let tree = parse_json(text);
    match kind {
        DocumentKind::DirectoryList => match decode_list_text(tree) {
            Ok(d) => Ok(Document::DirectoryList(d)),
            Err(e) => Err(e),
        },
        DocumentKind::ServiceDescriptor => match decode_descriptor_text(tree) {
            Ok(d) => Ok(Document::ServiceDescriptor(d)),
            Err(e) => Err(e),
        },
    }
}

} // verus!
