//! The contents of a mesh description file, as plain data.
//!
//! Coordinates travel through the library as raw IEEE-754 bit patterns: nothing
//! here does arithmetic on them, they are only moved from the file's tables
//! into the vertices of a mesh.

use vstd::prelude::*;

verus! {

/// Three coordinates, each the bit pattern of a double-precision float.
#[derive(Clone, Copy, Debug, PartialEq, Eq, Structural)]
pub struct Coordinates {
    pub x: u64,
    pub y: u64,
    pub z: u64,
}

/// One corner of a face as the file writes it: an index into the object's
/// positions, and optional indices into its texture coordinates and normals.
///
/// Two corners are the same vertex exactly when their keys are equal.
#[derive(Clone, Copy, Debug, PartialEq, Eq, Structural)]
pub struct VertexKey {
    pub position: usize,
    pub texture: Option<usize>,
    pub normal: Option<usize>,
}

/// A primitive of a geometry group.
#[derive(Clone, Copy, Debug, PartialEq, Eq, Structural)]
pub enum Primitive {
    Point(VertexKey),
    Line(VertexKey, VertexKey),
    Triangle(VertexKey, VertexKey, VertexKey),
}

/// A group of primitives that share a material.
#[derive(Clone, Debug, PartialEq, Eq)]
pub struct Geometry {
    pub shapes: Vec<Primitive>,
}

/// A named object: its coordinate tables and its geometry groups.
#[derive(Clone, Debug, PartialEq, Eq)]
pub struct Object {
    pub name: String,
    pub positions: Vec<Coordinates>,
    pub normals: Vec<Coordinates>,
    pub geometry: Vec<Geometry>,
}

/// The mathematical content of an [`Object`].
#[verifier::ext_equal]
pub struct ObjectModel {
    pub name: Seq<char>,
    pub positions: Seq<Coordinates>,
    pub normals: Seq<Coordinates>,
    pub geometry: Seq<Seq<Primitive>>,
}

impl View for Geometry {
    type V = Seq<Primitive>;

    open spec fn view(&self) -> Seq<Primitive> {
        self.shapes@
    }
}

impl View for Object {
    type V = ObjectModel;

    open spec fn view(&self) -> ObjectModel {
        ObjectModel {
            name: self.name@,
            positions: self.positions@,
            normals: self.normals@,
            geometry: self.geometry@.map_values(|g: Geometry| g@),
        }
    }
}

/// The models of a list of objects, in order.
pub open spec fn models(objects: Seq<Object>) -> Seq<ObjectModel> {
    objects.map_values(|o: Object| o@)
}

impl VertexKey {
    /// Whether the key's indices fall inside tables of the given sizes.
    pub open spec fn in_range(self, positions: nat, normals: nat) -> bool {
        &&& self.position < positions
        &&& self.normal matches Some(n) ==> n < normals
    }

    /// Executable form of [`VertexKey::in_range`].
    pub fn is_in_range(&self, positions: usize, normals: usize) -> (r: bool)
        ensures
            r == self.in_range(positions as nat, normals as nat),
    {
        self.position < positions && match self.normal {
            Some(n) => n < normals,
            None => true,
        }
    }
}

impl Primitive {
    /// The corners of the primitive, in the order the file lists them.
    pub open spec fn corners(self) -> Seq<VertexKey> {
        match self {
            Primitive::Point(a) => seq![a],
            Primitive::Line(a, b) => seq![a, b],
            Primitive::Triangle(a, b, c) => seq![a, b, c],
        }
    }

    /// Whether every corner refers into tables of the given sizes.
    pub open spec fn in_range(self, positions: nat, normals: nat) -> bool {
        forall|i: int| 0 <= i < self.corners().len() ==> (#[trigger] self.corners()[i]).in_range(positions, normals)
    }

    /// Executable form of [`Primitive::in_range`].
    pub fn is_in_range(&self, positions: usize, normals: usize) -> (r: bool)
        ensures
            r == self.in_range(positions as nat, normals as nat),
    {
        match self {
            Primitive::Point(a) => a.is_in_range(positions, normals),
            Primitive::Line(a, b) => a.is_in_range(positions, normals) && b.is_in_range(positions, normals),
            Primitive::Triangle(a, b, c) => {
                let r = a.is_in_range(positions, normals) && b.is_in_range(positions, normals)
                    && c.is_in_range(positions, normals);
                assert(self.corners()[0] == *a && self.corners()[1] == *b && self.corners()[2] == *c);
                r
            },
        }
    }
}

impl ObjectModel {
    /// Every corner of every primitive refers to an existing position and,
    /// where it names a normal, to an existing normal.
    pub open spec fn well_formed(self) -> bool {
        forall|g: int, s: int|
            0 <= g < self.geometry.len() && 0 <= s < self.geometry[g].len()
                ==> (#[trigger] self.geometry[g][s]).in_range(self.positions.len(), self.normals.len())
    }
}

/// Every object of the list is well formed.
pub open spec fn all_well_formed(objects: Seq<ObjectModel>) -> bool {
    forall|o: int| 0 <= o < objects.len() ==> (#[trigger] objects[o]).well_formed()
}

impl Object {
    /// Executable form of [`ObjectModel::well_formed`].
    pub fn is_well_formed(&self) -> (r: bool)
        ensures
            r == self@.well_formed(),
    {
        let positions = self.positions.len();
        let normals = self.normals.len();
        let mut g: usize = 0;
        while g < self.geometry.len()
            invariant
                g <= self.geometry.len(),
                positions == self.positions.len(),
                normals == self.normals.len(),
                forall|h: int, s: int|
                    0 <= h < g && 0 <= s < self@.geometry[h].len()
                        ==> (#[trigger] self@.geometry[h][s]).in_range(positions as nat, normals as nat),
            decreases self.geometry.len() - g,
        {
            let shapes = &self.geometry[g].shapes;
            let mut s: usize = 0;
            while s < shapes.len()
                invariant
                    s <= shapes.len(),
                    g < self.geometry.len(),
                    positions == self.positions.len(),
                    normals == self.normals.len(),
                    self@.geometry[g as int] == shapes@,
                    forall|t: int| 0 <= t < s ==> (#[trigger] shapes@[t]).in_range(positions as nat, normals as nat),
                decreases shapes.len() - s,
            {
                if !shapes[s].is_in_range(positions, normals) {
                    return false;
                }
                s += 1;
            }
            g += 1;
        }
        true
    }
}

} // verus!
