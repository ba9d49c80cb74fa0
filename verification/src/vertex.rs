//! The vertex format of a loaded mesh.

use vstd::prelude::*;
use crate::source::Coordinates;

verus! {

/// The attributes a vertex carries, in the order shaders bind them.
#[derive(Clone, Copy, Debug, PartialEq, Eq, Structural)]
pub enum VertexSemantics {
    Position,
    Normal,
}

impl VertexSemantics {
    /// The binding index of the attribute.
    pub open spec fn index_value(self) -> nat {
        match self {
            VertexSemantics::Position => 0,
            VertexSemantics::Normal => 1,
        }
    }

    /// The name shaders know the attribute by.
    pub open spec fn name_text(self) -> Seq<char> {
        match self {
            VertexSemantics::Position => "position"@,
            VertexSemantics::Normal => "normal"@,
        }
    }

    /// The binding index of the attribute.
    pub fn index(&self) -> (i: usize)
        ensures
            i == self.index_value(),
    {
        match self {
            VertexSemantics::Position => 0,
            VertexSemantics::Normal => 1,
        }
    }

    /// The name shaders know the attribute by.
    pub fn name(&self) -> (text: &'static str)
        ensures
            text@ == self.name_text(),
    {
        match self {
            VertexSemantics::Position => "position",
            VertexSemantics::Normal => "normal",
        }
    }
}

/// A vertex of a mesh: where it is and which way its surface faces.
#[derive(Clone, Copy, Debug, PartialEq, Eq, Structural)]
pub struct Vertex {
    pub position: Coordinates,
    pub normal: Coordinates,
}

impl Vertex {
    /// The value the vertex holds for an attribute.
    pub open spec fn attribute_value(self, semantics: VertexSemantics) -> Coordinates {
        match semantics {
            VertexSemantics::Position => self.position,
            VertexSemantics::Normal => self.normal,
        }
    }

    pub fn new(position: Coordinates, normal: Coordinates) -> (v: Vertex)
        ensures
            v == (Vertex { position, normal }),
    {
        Vertex { position, normal }
    }

    /// The value the vertex holds for an attribute.
    pub fn attribute(&self, semantics: VertexSemantics) -> (c: Coordinates)
        ensures
            c == self.attribute_value(semantics),
    {
        match semantics {
            VertexSemantics::Position => self.position,
            VertexSemantics::Normal => self.normal,
        }
    }
}

} // verus!
