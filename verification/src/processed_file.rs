//! What one source file contributes: its references and its definitions.

use crate::references::{
    definitions_view, references_view, Definition, DefinitionView, Reference, ReferenceView,
};
use vstd::prelude::*;

verus! {

/// The outcome of processing one file: the file's absolute path, the
/// references it makes and the constants it defines.
#[derive(Debug, PartialEq, Eq)]
pub struct ProcessedFile {
    pub absolute_path: String,
    pub unresolved_references: Vec<Reference>,
    pub definitions: Vec<Definition>,
}

/// The value of a `ProcessedFile`.
pub struct ProcessedFileView {
    pub absolute_path: Seq<char>,
    pub unresolved_references: Seq<ReferenceView>,
    pub definitions: Seq<DefinitionView>,
}

impl View for ProcessedFile {
    type V = ProcessedFileView;

    open spec fn view(&self) -> ProcessedFileView {
        ProcessedFileView {
            absolute_path: self.absolute_path@,
            unresolved_references: references_view(self.unresolved_references@),
            definitions: definitions_view(self.definitions@),
        }
    }
}

} // verus!
