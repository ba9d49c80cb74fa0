//! What can go wrong while a mesh is loaded.

use vstd::prelude::*;

verus! {

/// A file that parses but is not a single triangulated object with normals.
#[derive(Clone, Copy, Debug, PartialEq, Eq, Structural)]
pub enum StructuralError {
    /// The file holds no object, or more than one.
    ExpectedSingleObject,
    /// The object holds no geometry group, or more than one.
    ExpectedSingleGeometry,
    /// A primitive is a point or a line.
    UnsupportedShape,
    /// A corner has no normal index.
    MissingNormal,
    /// The mesh needs more vertices than a 32-bit index can address.
    TooManyVertices,
}

impl StructuralError {
    /// The text of [`StructuralError::message`].
    pub open spec fn message_text(self) -> Seq<char> {
        match self {
            StructuralError::ExpectedSingleObject => "expecting a single object"@,
            StructuralError::ExpectedSingleGeometry => "expecting a single geometry"@,
            StructuralError::UnsupportedShape => "unsupported non-triangle shape"@,
            StructuralError::MissingNormal => "missing normal for a vertex"@,
            StructuralError::TooManyVertices => "too many vertices for 32-bit indices"@,
        }
    }

    /// A one-line description of the error.
    pub fn message(&self) -> (text: &'static str)
        ensures
            text@ == self.message_text(),
    {
        match self {
            StructuralError::ExpectedSingleObject => "expecting a single object",
            StructuralError::ExpectedSingleGeometry => "expecting a single geometry",
            StructuralError::UnsupportedShape => "unsupported non-triangle shape",
            StructuralError::MissingNormal => "missing normal for a vertex",
            StructuralError::TooManyVertices => "too many vertices for 32-bit indices",
        }
    }
}

/// A statement of the file that the parser could not read.
#[derive(Clone, Debug, PartialEq, Eq)]
pub struct ParseFailure {
    /// The line the parser stopped at, counted from one.
    pub line_number: usize,
    /// The parser's own description.
    pub message: String,
}

/// The mathematical content of a [`ParseFailure`].
pub struct ParseFailureModel {
    pub line_number: int,
    pub message: Seq<char>,
}

impl View for ParseFailure {
    type V = ParseFailureModel;

    open spec fn view(&self) -> ParseFailureModel {
        ParseFailureModel { line_number: self.line_number as int, message: self.message@ }
    }
}

/// Why a mesh could not be loaded from the text of a file.
#[derive(Clone, Debug, PartialEq, Eq)]
pub enum LoadError {
    /// The text is not a well-formed mesh description.
    Parse(ParseFailure),
    /// The text parses, but the mesh it describes is not supported.
    Structure(StructuralError),
}

/// The mathematical content of a [`LoadError`].
pub enum LoadErrorModel {
    Parse(ParseFailureModel),
    Structure(StructuralError),
}

impl View for LoadError {
    type V = LoadErrorModel;

    open spec fn view(&self) -> LoadErrorModel {
        match self {
            LoadError::Parse(failure) => LoadErrorModel::Parse(failure@),
            LoadError::Structure(error) => LoadErrorModel::Structure(*error),
        }
    }
}

} // verus!
