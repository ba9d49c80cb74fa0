//! Building an indexed mesh from the one object of a mesh description file.

use vstd::prelude::*;
use crate::cache::VertexCache;
use crate::dedup::{corner_defect, first_defect, first_occurrences, first_position, lemma_first_occurrences_distinct,
    lemma_first_occurrences_push, lemma_first_position_unique, references, shape_defect};
use crate::error::{LoadError, LoadErrorModel, ParseFailure, ParseFailureModel, StructuralError};
use crate::source::{all_well_formed, models, Geometry, Object, ObjectModel, Primitive, VertexKey};
use crate::vertex::Vertex;
use crate::wavefront::{parse_objects, parse_outcome, parser_defined_on};

verus! {

/// The mathematical content of a mesh: its vertices, and three indices into
/// them for each triangle.
#[verifier::ext_equal]
pub struct MeshModel {
    pub vertices: Seq<Vertex>,
    pub indices: Seq<u32>,
}

impl MeshModel {
    /// Every index names a vertex.
    pub open spec fn well_formed(self) -> bool {
        forall|i: int| 0 <= i < self.indices.len() ==> (#[trigger] self.indices[i]) < self.vertices.len()
    }
}

/// The vertex a key stands for: the position and the normal it refers to.
pub open spec fn vertex_of(object: ObjectModel, key: VertexKey) -> Vertex {
    Vertex { position: object.positions[key.position as int], normal: object.normals[key.normal->0 as int] }
}

/// The mesh of a run of shapes: one vertex for each distinct key, in order of
/// first occurrence, and for each corner reference the index of its key's vertex.
pub open spec fn assemble(object: ObjectModel, shapes: Seq<Primitive>) -> MeshModel {
    let keys = first_occurrences(references(shapes));
    MeshModel {
        vertices: keys.map_values(|key: VertexKey| vertex_of(object, key)),
        indices: references(shapes).map_values(|key: VertexKey| first_position(keys, key) as u32),
    }
}

/// What building a mesh from an object gives.
pub open spec fn build_outcome(object: ObjectModel) -> Result<MeshModel, StructuralError> {
    if object.geometry.len() != 1 {
        Err(StructuralError::ExpectedSingleGeometry)
    } else {
        match first_defect(object.geometry[0]) {
            Some(error) => Err(error),
            None => Ok(assemble(object, object.geometry[0])),
        }
    }
}

/// What building a mesh from the objects of a file gives.
pub open spec fn selection_outcome(objects: Seq<ObjectModel>) -> Result<MeshModel, StructuralError> {
    if objects.len() != 1 {
        Err(StructuralError::ExpectedSingleObject)
    } else {
        build_outcome(objects[0])
    }
}

/// What loading a mesh gives, for each outcome of parsing the file.
pub open spec fn load_outcome(parsed: Result<Seq<ObjectModel>, ParseFailureModel>) -> Result<
    MeshModel,
    LoadErrorModel,
> {
    match parsed {
        Err(failure) => Err(LoadErrorModel::Parse(failure)),
        Ok(objects) => match selection_outcome(objects) {
            Ok(mesh) => Ok(mesh),
            Err(error) => Err(LoadErrorModel::Structure(error)),
        },
    }
}

/// The mathematical content of the result of a parse.
pub open spec fn parse_model(parsed: Result<Vec<Object>, ParseFailure>) -> Result<
    Seq<ObjectModel>,
    ParseFailureModel,
> {
    match parsed {
        Ok(objects) => Ok(models(objects@)),
        Err(failure) => Err(failure@),
    }
}

/// A defect found in the first `n` shapes is the defect of the whole run.
pub proof fn lemma_first_defect_prefix(shapes: Seq<Primitive>, n: int)
    requires
        0 <= n <= shapes.len(),
        first_defect(shapes.take(n)) is Some,
    ensures
        first_defect(shapes) == first_defect(shapes.take(n)),
    decreases shapes.len() - n,
{
    if n < shapes.len() {
        assert(shapes.take(n + 1).drop_last() =~= shapes.take(n));
        lemma_first_defect_prefix(shapes, n + 1);
    } else {
        assert(shapes.take(n) =~= shapes);
    }
}

/// The state of a traversal after the corner references `refs`: the cache
/// knows each distinct key's index, and vertices and indices are those of
/// the mesh so far.
spec fn consistent(
    object: ObjectModel,
    refs: Seq<VertexKey>,
    cache: VertexCache,
    vertices: Seq<Vertex>,
    indices: Seq<u32>,
) -> bool {
    let keys = first_occurrences(refs);
    &&& cache.well_formed()
    &&& keys.len() == vertices.len()
    &&& forall|k: VertexKey| cache@.contains_key(k) <==> keys.contains(k)
    &&& forall|i: int|
        0 <= i < keys.len() ==> cache@[#[trigger] keys[i]] == i && vertices[i] == vertex_of(object, keys[i])
    &&& indices.len() == refs.len()
    &&& forall|j: int|
        0 <= j < refs.len() ==> (#[trigger] indices[j]) < keys.len() && keys[indices[j] as int] == refs[j]
}

/// Takes one corner into the mesh: a key seen before gets its old index, a
/// new key gets a new vertex and the next index.
fn take_corner(
    object: &Object,
    key: VertexKey,
    cache: &mut VertexCache,
    vertices: &mut Vec<Vertex>,
    indices: &mut Vec<u32>,
    Ghost(refs): Ghost<Seq<VertexKey>>,
) -> (r: Result<(), StructuralError>)
    requires
        key.in_range(object@.positions.len(), object@.normals.len()),
        consistent(object@, refs, *old(cache), old(vertices)@, old(indices)@),
    ensures
        match r {
            Ok(()) => corner_defect(first_occurrences(refs), key) is None && consistent(
                object@,
                refs.push(key),
                *final(cache),
                final(vertices)@,
                final(indices)@,
            ),
            Err(error) => corner_defect(first_occurrences(refs), key) == Some(error),
        },
{
    let ghost keys = first_occurrences(refs);
    proof {
        lemma_first_occurrences_push(refs, key);
        lemma_first_occurrences_distinct(refs);
    }
    match cache.get(&key) {
        Some(index) => {
            indices.push(index);
            Ok(())
        },
        None => {
            let normal = match key.normal {
                Some(normal) => normal,
                None => {
                    return Err(StructuralError::MissingNormal);
                },
            };
            if vertices.len() > u32::MAX as usize {
                return Err(StructuralError::TooManyVertices);
            }
            let index = vertices.len() as u32;
            let vertex = Vertex::new(object.positions[key.position], object.normals[normal]);
            cache.insert(key, index);
            vertices.push(vertex);
            indices.push(index);
            proof {
                let grown = keys.push(key);
                assert forall|k: VertexKey| cache@.contains_key(k) <==> grown.contains(k) by {
                    if grown.contains(k) {
                        let i = choose|i: int| 0 <= i < grown.len() && grown[i] == k;
                        if i < keys.len() {
                            assert(keys.contains(k));
                        }
                    }
                    if cache@.contains_key(k) {
                        if k == key {
                            assert(grown[keys.len() as int] == k);
                        } else {
                            assert(keys.contains(k));
                        }
                    }
                }
            }
            Ok(())
        },
    }
}

/// The only object of a file.
pub fn single_object(objects: &Vec<Object>) -> (r: Result<&Object, StructuralError>)
    ensures
        match r {
            Ok(object) => objects.len() == 1 && *object == objects[0],
            Err(error) => objects.len() != 1 && error == StructuralError::ExpectedSingleObject,
        },
{
    if objects.len() == 1 {
        Ok(&objects[0])
    } else {
        Err(StructuralError::ExpectedSingleObject)
    }
}

/// The only geometry group of an object.
pub fn single_geometry(object: &Object) -> (r: Result<&Geometry, StructuralError>)
    ensures
        match r {
            Ok(geometry) => object.geometry.len() == 1 && *geometry == object.geometry[0],
            Err(error) => object.geometry.len() != 1 && error == StructuralError::ExpectedSingleGeometry,
        },
{
    if object.geometry.len() == 1 {
        Ok(&object.geometry[0])
    } else {
        Err(StructuralError::ExpectedSingleGeometry)
    }
}

/// An indexed triangle mesh.
#[derive(Debug)]
pub struct Obj {
    vertices: Vec<Vertex>,
    indices: Vec<u32>,
}

impl View for Obj {
    type V = MeshModel;

    closed spec fn view(&self) -> MeshModel {
        MeshModel { vertices: self.vertices@, indices: self.indices@ }
    }
}

impl Obj {
    #[verifier::type_invariant]
    spec fn indices_name_vertices(self) -> bool {
        self@.well_formed()
    }

    /// The vertices, in the order in which their keys first occurred.
    pub fn vertices(&self) -> (vertices: &Vec<Vertex>)
        ensures
            vertices@ == self@.vertices,
    {
        &self.vertices
    }

    /// The indices, three for each triangle, in the order of the file.
    pub fn indices(&self) -> (indices: &Vec<u32>)
        ensures
            indices@ == self@.indices,
            self@.well_formed(),
    {
        proof {
            use_type_invariant(self);
        }
        &self.indices
    }

    /// Gives up the mesh as its vertices and its indices.
    pub fn into_parts(self) -> (parts: (Vec<Vertex>, Vec<u32>))
        ensures
            parts.0@ == self@.vertices,
            parts.1@ == self@.indices,
            self@.well_formed(),
    {
        proof {
            use_type_invariant(&self);
        }
        (self.vertices, self.indices)
    }

    /// Builds the mesh of an object that has exactly one geometry group, all
    /// of whose shapes are triangles with normals.
    ///
    /// Corners with equal keys share one vertex. A vertex is created where
    /// its key first occurs, from the position and the normal that the key
    /// refers to, and gets the next index. The first shape that cannot be
    /// taken decides the error, and nothing of the mesh is kept.
    pub fn build(object: &Object) -> (r: Result<Obj, StructuralError>)
        requires
            object@.well_formed(),
        ensures
            match r {
                Ok(mesh) => build_outcome(object@) == Ok::<MeshModel, StructuralError>(mesh@),
                Err(error) => build_outcome(object@) == Err::<MeshModel, StructuralError>(error),
            },
    {
        let geometry = match single_geometry(object) {
            Ok(geometry) => geometry,
            Err(error) => {
                return Err(error);
            },
        };
        let shapes = &geometry.shapes;
        let mut cache = VertexCache::new();
        let mut vertices: Vec<Vertex> = Vec::new();
        let mut indices: Vec<u32> = Vec::new();
        let mut s: usize = 0;
        while s < shapes.len()
            invariant
                s <= shapes.len(),
                object@.well_formed(),
                object@.geometry.len() == 1,
                shapes@ == object@.geometry[0],
                first_defect(shapes@.take(s as int)) is None,
                consistent(object@, references(shapes@.take(s as int)), cache, vertices@, indices@),
            decreases shapes.len() - s,
        {
            let ghost done = shapes@.take(s as int);
            let ghost refs = references(done);
            let shape = shapes[s];
            proof {
                assert(shapes@.take(s + 1).drop_last() =~= done);
            }
            match shape {
                Primitive::Triangle(a, b, c) => {
                    proof {
                        assert(refs + shape.corners() =~= refs.push(a).push(b).push(c));
                    }
                    let taken = match take_corner(object, a, &mut cache, &mut vertices, &mut indices, Ghost(refs)) {
                        Ok(()) => match take_corner(
                            object,
                            b,
                            &mut cache,
                            &mut vertices,
                            &mut indices,
                            Ghost(refs.push(a)),
                        ) {
                            Ok(()) => take_corner(
                                object,
                                c,
                                &mut cache,
                                &mut vertices,
                                &mut indices,
                                Ghost(refs.push(a).push(b)),
                            ),
                            Err(error) => Err(error),
                        },
                        Err(error) => Err(error),
                    };
                    match taken {
                        Ok(()) => {},
                        Err(error) => {
                            proof {
                                lemma_first_defect_prefix(shapes@, s + 1);
                            }
                            return Err(error);
                        },
                    }
                },
                _ => {
                    proof {
                        lemma_first_defect_prefix(shapes@, s + 1);
                    }
                    return Err(StructuralError::UnsupportedShape);
                },
            }
            s += 1;
        }
        proof {
            assert(shapes@.take(s as int) =~= shapes@);
            let refs = references(shapes@);
            let keys = first_occurrences(refs);
            let model = assemble(object@, shapes@);
            lemma_first_occurrences_distinct(refs);
            assert(vertices@ =~= model.vertices);
            assert forall|j: int| 0 <= j < refs.len() implies indices@[j] == model.indices[j] by {
                lemma_first_position_unique(keys, indices@[j] as int);
            }
            assert(indices@ =~= model.indices);
        }
        Ok(Obj { vertices, indices })
    }

    /// Builds the mesh of a file that holds exactly one object.
    pub fn from_objects(objects: &Vec<Object>) -> (r: Result<Obj, StructuralError>)
        requires
            all_well_formed(models(objects@)),
        ensures
            match r {
                Ok(mesh) => selection_outcome(models(objects@)) == Ok::<MeshModel, StructuralError>(mesh@),
                Err(error) => selection_outcome(models(objects@)) == Err::<MeshModel, StructuralError>(error),
            },
    {
        match single_object(objects) {
            Err(error) => Err(error),
            Ok(object) => {
                Obj::build(object)
            },
        }
    }

    /// Turns the result of a parse into a mesh: a parse failure is handed on,
    /// parsed objects are built into a mesh.
    pub fn from_parse(parsed: Result<Vec<Object>, ParseFailure>) -> (r: Result<Obj, LoadError>)
        requires
            parsed matches Ok(objects) ==> all_well_formed(models(objects@)),
        ensures
            match r {
                Ok(mesh) => load_outcome(parse_model(parsed)) == Ok::<MeshModel, LoadErrorModel>(mesh@),
                Err(error) => load_outcome(parse_model(parsed)) == Err::<MeshModel, LoadErrorModel>(error@),
            },
    {
        match parsed {
            Err(failure) => Err(LoadError::Parse(failure)),
            Ok(objects) => match Obj::from_objects(&objects) {
                Ok(mesh) => Ok(mesh),
                Err(error) => Err(LoadError::Structure(error)),
            },
        }
    }

    /// Loads a mesh from the text of a mesh description file: parses the
    /// text and builds the mesh of its one object.
    ///
    /// The text must be one that the parser can be given, see
    /// [`parser_defined_on`].
    pub fn load(text: &str) -> (r: Result<Obj, LoadError>)
        requires
            parser_defined_on(text),
        ensures
            match r {
                Ok(mesh) => load_outcome(parse_outcome(text@)) == Ok::<MeshModel, LoadErrorModel>(mesh@),
                Err(error) => load_outcome(parse_outcome(text@)) == Err::<MeshModel, LoadErrorModel>(error@),
            },
    {
        Obj::from_parse(parse_objects(text))
    }
}

} // verus!
