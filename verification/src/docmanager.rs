//! Multi-document management, defined as an interface only: the editor
//! currently works on a single document, and nothing in the core
//! implements this trait yet.

use crate::doc::Document;
use crate::doc::PersistenceError;
use std::rc::Rc;
use vstd::prelude::*;

verus! {

/// A registry of open documents, for a shell that manages several at
/// once.
pub trait DocumentManager {
    /// The concrete document type the manager hands out.
    type Doc: Document;

    /// Whether more than one document can be open at a time.
    fn supports_multidoc() -> bool;

    /// The paths of the currently open documents.
    fn get_open_documents(&self) -> Vec<String>;

    /// The open document registered under `doc_path`.
    fn get_document(&self, doc_path: &str) -> Rc<Self::Doc>;

    /// Registers an already constructed document.
    fn add_document(&mut self, doc: Rc<Self::Doc>);

    /// Closes `doc`, saving it first when `do_save` asks for that; says
    /// whether the document ended up closed.
    fn close_document(&mut self, doc: Rc<Self::Doc>, do_save: bool) -> Result<
        bool,
        PersistenceError,
    >;

    /// Opens the document stored at `path`.
    fn open_document(&mut self, path: &str) -> Rc<Self::Doc>;

    /// Creates a new, empty, untitled document.
    fn new_document(&mut self) -> Rc<Self::Doc>;
}

} // verus!
