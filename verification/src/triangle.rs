//! The simplest scene: a single triangle with a colour at each corner.
//!
//! Its vertices are a fixed table. Positions are the bit patterns of
//! single-precision floats, colours are bytes that the shader reads as
//! fractions of 255.

use vstd::prelude::*;

verus! {

/// The bit pattern of `0.5`.
pub const HALF: u32 = 0x3F00_0000;

/// The bit pattern of `-0.5`.
pub const MINUS_HALF: u32 = 0xBF00_0000;

/// The bit pattern of `0.0`.
pub const ZERO: u32 = 0;

/// The attributes a vertex of the triangle carries, in the order shaders bind them.
#[derive(Clone, Copy, Debug, PartialEq, Eq, Structural)]
pub enum VertexSemantics {
    Position,
    Color,
}

impl VertexSemantics {
    /// The binding index of the attribute.
    pub open spec fn index_value(self) -> nat {
        match self {
            VertexSemantics::Position => 0,
            VertexSemantics::Color => 1,
        }
    }

    /// The name shaders know the attribute by.
    pub open spec fn name_text(self) -> Seq<char> {
        match self {
            VertexSemantics::Position => "position"@,
            VertexSemantics::Color => "color"@,
        }
    }

    /// The binding index of the attribute.
    pub fn index(&self) -> (i: usize)
        ensures
            i == self.index_value(),
    {
        match self {
            VertexSemantics::Position => 0,
            VertexSemantics::Color => 1,
        }
    }

    /// The name shaders know the attribute by.
    pub fn name(&self) -> (text: &'static str)
        ensures
            text@ == self.name_text(),
    {
        match self {
            VertexSemantics::Position => "position",
            VertexSemantics::Color => "color",
        }
    }
}

/// A place on the screen plane.
#[derive(Clone, Copy, Debug, PartialEq, Eq, Structural)]
pub struct Position {
    pub x: u32,
    pub y: u32,
}

/// A colour.
#[derive(Clone, Copy, Debug, PartialEq, Eq, Structural)]
pub struct Rgb {
    pub red: u8,
    pub green: u8,
    pub blue: u8,
}

/// A corner of the triangle.
#[derive(Clone, Copy, Debug, PartialEq, Eq, Structural)]
pub struct Vertex {
    pub position: Position,
    pub color: Rgb,
}

impl Vertex {
    pub fn new(position: Position, color: Rgb) -> (v: Vertex)
        ensures
            v == (Vertex { position, color }),
    {
        Vertex { position, color }
    }
}

/// The three corners: red at the lower left, green at the lower right, blue at the top.
pub open spec fn corners() -> Seq<Vertex> {
    seq![
        Vertex { position: Position { x: MINUS_HALF, y: MINUS_HALF }, color: Rgb { red: 255, green: 0, blue: 0 } },
        Vertex { position: Position { x: HALF, y: MINUS_HALF }, color: Rgb { red: 0, green: 255, blue: 0 } },
        Vertex { position: Position { x: ZERO, y: HALF }, color: Rgb { red: 0, green: 0, blue: 255 } },
    ]
}

/// The vertex table of the triangle.
pub fn vertices() -> (table: Vec<Vertex>)
    ensures
        table@ == corners(),
{
    let mut table: Vec<Vertex> = Vec::new();
    table.push(Vertex::new(Position { x: MINUS_HALF, y: MINUS_HALF }, Rgb { red: 255, green: 0, blue: 0 }));
    table.push(Vertex::new(Position { x: HALF, y: MINUS_HALF }, Rgb { red: 0, green: 255, blue: 0 }));
    table.push(Vertex::new(Position { x: ZERO, y: HALF }, Rgb { red: 0, green: 0, blue: 255 }));
    table
}

} // verus!
