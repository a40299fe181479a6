//! What one parsed file holds: its imports and its schema.

use vstd::prelude::*;
use crate::lexer::loc::Loc;
use crate::model::{clone_vec, Schema, SchemaView};

verus! {

/// A value with the position at which it was found.
#[derive(Debug, Clone, PartialEq)]
pub struct WithLoc<T> {
    pub loc: Loc,
    pub t: T,
}

/// The visibility of an import.
#[derive(Debug, Clone, Copy, PartialEq, Eq, Structural)]
pub enum ImportVis {
    Default,
    Public,
    Weak,
}

impl Default for ImportVis {
    fn default() -> (r: Self)
        ensures
            r == ImportVis::Default,
    {
        ImportVis::Default
    }
}

/// An import statement.
#[derive(Debug, Default, PartialEq)]
pub struct Import {
    /// The path of the imported file
    pub path: String,
    /// The visibility of the import
    pub vis: ImportVis,
}

/// What an [`Import`] is, over mathematical strings.
pub struct ImportView {
    pub path: Seq<char>,
    pub vis: ImportVis,
}

impl View for Import {
    type V = ImportView;

    open spec fn view(&self) -> ImportView {
        ImportView { path: self.path@, vis: self.vis }
    }
}

impl Clone for Import {
    fn clone(&self) -> (r: Self)
        ensures
            r@ == self@,
    {
        Import { path: self.path.clone(), vis: self.vis }
    }
}

/// One parsed schema file.
#[derive(Debug, Default, PartialEq)]
pub struct FileDescriptor {
    /// The imports of the file
    pub imports: Vec<Import>,
    /// The schema that the file declares
    pub schema: Schema,
}

impl Clone for FileDescriptor {
    fn clone(&self) -> (r: Self)
        ensures
            r@ == self@,
    {
        FileDescriptor { imports: clone_vec(&self.imports), schema: self.schema.clone() }
    }
}

/// What a [`FileDescriptor`] is, over mathematical strings.
pub struct FileDescriptorView {
    pub imports: Seq<ImportView>,
    pub schema: SchemaView,
}

impl View for FileDescriptor {
    type V = FileDescriptorView;

    open spec fn view(&self) -> FileDescriptorView {
        FileDescriptorView {
            imports: crate::model::views(self.imports@),
            schema: self.schema@,
        }
    }
}

} // verus!
