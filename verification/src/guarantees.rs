//! What holds of every mesh that loading gives, and of every file it rejects.

use vstd::prelude::*;
use vstd::seq_lib::seq_to_set_is_finite;
use vstd::set_lib::lemma_map_size;
use crate::dedup::{corner_defect, first_defect, first_occurrences, first_position, lemma_first_occurrences_count,
    lemma_first_occurrences_distinct, lemma_first_occurrences_ordered, lemma_first_occurrences_push,
    lemma_first_position, references, shape_defect};
use crate::error::StructuralError;
use crate::error::{LoadErrorModel, ParseFailureModel};
use crate::mesh::{assemble, build_outcome, lemma_first_defect_prefix, load_outcome, selection_outcome, vertex_of,
    MeshModel};
use crate::source::{ObjectModel, Primitive, VertexKey};

verus! {

/// The position and normal indices of a key, without its texture index.
pub open spec fn position_and_normal(key: VertexKey) -> (usize, Option<usize>) {
    (key.position, key.normal)
}

/// No two references agree in position and normal and differ in texture.
pub open spec fn texture_follows(refs: Seq<VertexKey>) -> bool {
    forall|i: int, j: int|
        0 <= i < refs.len() && 0 <= j < refs.len() && position_and_normal(#[trigger] refs[i])
            == position_and_normal(#[trigger] refs[j]) ==> refs[i] == refs[j]
}

/// A run of shapes without a defect holds triangles only, three corner
/// references for each, every one with a normal, and no more distinct keys
/// than 32-bit indices can tell apart.
pub proof fn lemma_defect_free(shapes: Seq<Primitive>)
    requires
        first_defect(shapes) is None,
    ensures
        forall|i: int| 0 <= i < shapes.len() ==> (#[trigger] shapes[i]) is Triangle,
        references(shapes).len() == 3 * shapes.len(),
        forall|t: int| 0 <= t < references(shapes).len() ==> (#[trigger] references(shapes)[t]).normal is Some,
        first_occurrences(references(shapes)).len() <= u32::MAX + 1,
    decreases shapes.len(),
{
    if shapes.len() > 0 {
        let init = shapes.drop_last();
        let before = references(init);
        lemma_defect_free(init);
        assert forall|i: int| 0 <= i < shapes.len() implies (#[trigger] shapes[i]) is Triangle by {
            if i < init.len() {
                assert(init[i] == shapes[i]);
            }
        }
        match shapes.last() {
            Primitive::Triangle(a, b, c) => {
                let refs = references(shapes);
                assert(refs =~= before.push(a).push(b).push(c));
                lemma_corner_accepted(before, a);
                lemma_corner_accepted(before.push(a), b);
                lemma_corner_accepted(before.push(a).push(b), c);
            },
            _ => {},
        }
    }
}

/// Taking a corner without a defect keeps every reference with a normal and
/// the distinct keys within reach of 32-bit indices.
proof fn lemma_corner_accepted(before: Seq<VertexKey>, key: VertexKey)
    requires
        corner_defect(first_occurrences(before), key) is None,
        forall|t: int| 0 <= t < before.len() ==> (#[trigger] before[t]).normal is Some,
        first_occurrences(before).len() <= u32::MAX + 1,
    ensures
        forall|t: int| 0 <= t < before.push(key).len() ==> (#[trigger] before.push(key)[t]).normal is Some,
        first_occurrences(before.push(key)).len() <= u32::MAX + 1,
{
    lemma_first_occurrences_push(before, key);
    lemma_first_occurrences_distinct(before);
    if first_occurrences(before).contains(key) {
        assert(before.contains(key));
    }
}

/// Whether a run of shapes can be taken into a mesh: every shape is a
/// triangle, every corner has a normal, and there are no more distinct keys
/// than 32-bit indices can tell apart.
pub open spec fn acceptable(shapes: Seq<Primitive>) -> bool {
    &&& forall|i: int| 0 <= i < shapes.len() ==> (#[trigger] shapes[i]) is Triangle
    &&& forall|t: int| 0 <= t < references(shapes).len() ==> (#[trigger] references(shapes)[t]).normal is Some
    &&& first_occurrences(references(shapes)).len() <= u32::MAX + 1
}

/// A run of shapes has no defect exactly when it is acceptable.
pub proof fn lemma_no_defect_iff_acceptable(shapes: Seq<Primitive>)
    ensures
        first_defect(shapes) is None <==> acceptable(shapes),
    decreases shapes.len(),
{
    if first_defect(shapes) is None {
        lemma_defect_free(shapes);
    }
    if acceptable(shapes) && shapes.len() > 0 {
        let init = shapes.drop_last();
        let before = references(init);
        let refs = references(shapes);
        assert(shapes.last() == shapes[shapes.len() - 1]);
        match shapes.last() {
            Primitive::Triangle(a, b, c) => {
                assert(shapes.last().corners() =~= seq![a, b, c]);
                assert(refs =~= before.push(a).push(b).push(c));
                lemma_first_occurrences_push(before, a);
                lemma_first_occurrences_push(before.push(a), b);
                lemma_first_occurrences_push(before.push(a).push(b), c);
                let n = before.len() as int;
                assert(refs[n] == a && refs[n + 1] == b && refs[n + 2] == c);
                assert forall|i: int| 0 <= i < init.len() implies (#[trigger] init[i]) is Triangle by {
                    assert(init[i] == shapes[i]);
                }
                assert forall|t: int| 0 <= t < before.len() implies (#[trigger] before[t]).normal is Some by {
                    assert(refs[t] == before[t]);
                }
                lemma_no_defect_iff_acceptable(init);
            },
            _ => {},
        }
    }
}

/// An object with one geometry group of acceptable shapes gives a mesh: the
/// mesh of those shapes. So does a file that holds just that object.
pub proof fn lemma_acceptable_object_gives_its_mesh(object: ObjectModel)
    requires
        object.geometry.len() == 1,
        acceptable(object.geometry[0]),
    ensures
        build_outcome(object) == Ok::<MeshModel, StructuralError>(assemble(object, object.geometry[0])),
        selection_outcome(seq![object]) == build_outcome(object),
        load_outcome(Ok::<Seq<ObjectModel>, ParseFailureModel>(seq![object])) == Ok::<MeshModel, LoadErrorModel>(
            assemble(object, object.geometry[0]),
        ),
{
    lemma_no_defect_iff_acceptable(object.geometry[0]);
}

/// A shape that is no triangle, after acceptable shapes, is rejected as
/// unsupported, whatever follows it.
pub proof fn lemma_rejects_non_triangle_after_acceptable_shapes(object: ObjectModel, i: int)
    requires
        object.geometry.len() == 1,
        0 <= i < object.geometry[0].len(),
        !(object.geometry[0][i] is Triangle),
        acceptable(object.geometry[0].take(i)),
    ensures
        build_outcome(object) == Err::<MeshModel, StructuralError>(StructuralError::UnsupportedShape),
        load_outcome(Ok::<Seq<ObjectModel>, ParseFailureModel>(seq![object])) == Err::<MeshModel, LoadErrorModel>(
            LoadErrorModel::Structure(StructuralError::UnsupportedShape),
        ),
{
    lemma_no_defect_iff_acceptable(object.geometry[0].take(i));
    lemma_rejects_non_triangle(object, i);
}

/// A mesh has one index for each corner reference, three for each
/// triangle, and one vertex for each distinct key: never more vertices than
/// indices.
pub proof fn lemma_mesh_counts(object: ObjectModel, mesh: MeshModel)
    requires
        build_outcome(object) == Ok::<MeshModel, StructuralError>(mesh),
    ensures
        mesh.indices.len() == references(object.geometry[0]).len(),
        mesh.indices.len() == 3 * object.geometry[0].len(),
        mesh.vertices.len() == references(object.geometry[0]).to_set().len(),
        mesh.vertices.len() <= mesh.indices.len(),
{
    let refs = references(object.geometry[0]);
    lemma_defect_free(object.geometry[0]);
    lemma_first_occurrences_count(refs);
    lemma_first_occurrences_distinct(refs);
}

/// Where the texture index of a reference follows from its position and
/// normal indices, a mesh has one vertex for each distinct pair of position
/// and normal indices.
pub proof fn lemma_one_vertex_for_each_position_and_normal(object: ObjectModel, mesh: MeshModel)
    requires
        build_outcome(object) == Ok::<MeshModel, StructuralError>(mesh),
        texture_follows(references(object.geometry[0])),
    ensures
        mesh.vertices.len() == references(object.geometry[0]).map_values(
            |key: VertexKey| position_and_normal(key),
        ).to_set().len(),
{
    let refs = references(object.geometry[0]);
    let pair = |key: VertexKey| position_and_normal(key);
    lemma_mesh_counts(object, mesh);
    seq_to_set_is_finite(refs);
    assert(vstd::relations::injective_on(pair, refs.to_set())) by {
        assert forall|x: VertexKey, y: VertexKey|
            refs.to_set().contains(x) && refs.to_set().contains(y) && #[trigger] pair(x) == #[trigger] pair(
                y,
            ) implies x == y by {}
    }
    assert(refs.to_set().map(pair) =~= refs.map_values(pair).to_set()) by {
        assert forall|p: (usize, Option<usize>)| refs.to_set().map(pair).contains(p) implies refs.map_values(
            pair,
        ).to_set().contains(p) by {
            let x = choose|x: VertexKey| refs.to_set().contains(x) && pair(x) == p;
            let i = choose|i: int| 0 <= i < refs.len() && refs[i] == x;
            assert(refs.map_values(pair)[i] == p);
        }
        assert forall|p: (usize, Option<usize>)| refs.map_values(pair).to_set().contains(p) implies refs.to_set().map(
            pair,
        ).contains(p) by {
            let i = choose|i: int| 0 <= i < refs.map_values(pair).len() && refs.map_values(pair)[i] == p;
            assert(refs.to_set().contains(refs[i]));
        }
    }
    lemma_map_size(refs.to_set(), refs.map_values(pair).to_set(), pair);
}

/// Every index of a mesh names a vertex: the vertex of the key of the corner
/// that the index stands for.
pub proof fn lemma_indices_name_vertices(object: ObjectModel, mesh: MeshModel)
    requires
        build_outcome(object) == Ok::<MeshModel, StructuralError>(mesh),
    ensures
        mesh.well_formed(),
        forall|t: int|
            0 <= t < mesh.indices.len() ==> mesh.vertices[(#[trigger] mesh.indices[t]) as int] == vertex_of(
                object,
                references(object.geometry[0])[t],
            ),
{
    let refs = references(object.geometry[0]);
    let keys = first_occurrences(refs);
    lemma_defect_free(object.geometry[0]);
    lemma_first_occurrences_distinct(refs);
    assert forall|t: int| 0 <= t < mesh.indices.len() implies (#[trigger] mesh.indices[t]) < mesh.vertices.len()
        && mesh.vertices[mesh.indices[t] as int] == vertex_of(object, refs[t]) by {
        assert(refs.contains(refs[t]));
        lemma_first_position(keys, refs[t]);
    }
}

/// The vertices of a mesh stand in the order in which their keys first occur
/// among the corner references: the vertex at `i` is that of the `i`-th
/// first occurrence, and every first occurrence has its vertex.
pub proof fn lemma_vertices_in_order_of_first_occurrence(object: ObjectModel, mesh: MeshModel)
    requires
        build_outcome(object) == Ok::<MeshModel, StructuralError>(mesh),
    ensures
        ({
            let refs = references(object.geometry[0]);
            let keys = first_occurrences(refs);
            &&& mesh.vertices.len() == keys.len()
            &&& keys.no_duplicates()
            &&& forall|t: int| 0 <= t < refs.len() ==> keys.contains(#[trigger] refs[t])
            &&& forall|i: int|
                0 <= i < keys.len() ==> {
                    let first = first_position(refs, #[trigger] keys[i]);
                    &&& 0 <= first < refs.len()
                    &&& refs[first] == keys[i]
                    &&& forall|t: int| 0 <= t < first ==> refs[t] != keys[i]
                    &&& mesh.vertices[i] == vertex_of(object, refs[first])
                }
            &&& forall|i: int, j: int|
                0 <= i < j < keys.len() ==> first_position(refs, #[trigger] keys[i]) < first_position(
                    refs,
                    #[trigger] keys[j],
                )
        }),
{
    let refs = references(object.geometry[0]);
    let keys = first_occurrences(refs);
    lemma_first_occurrences_distinct(refs);
    lemma_first_occurrences_ordered(refs);
    assert forall|t: int| 0 <= t < refs.len() implies keys.contains(#[trigger] refs[t]) by {
        assert(refs.contains(refs[t]));
    }
    assert forall|i: int| 0 <= i < keys.len() implies {
        let first = first_position(refs, #[trigger] keys[i]);
        &&& 0 <= first < refs.len()
        &&& refs[first] == keys[i]
        &&& forall|t: int| 0 <= t < first ==> refs[t] != keys[i]
        &&& mesh.vertices[i] == vertex_of(object, refs[first])
    } by {
        lemma_first_position(refs, keys[i]);
    }
}

/// The first shape that has a defect decides the error of the whole run.
pub proof fn lemma_first_defect_decides(shapes: Seq<Primitive>, i: int, error: StructuralError)
    requires
        0 <= i < shapes.len(),
        first_defect(shapes.take(i)) is None,
        shape_defect(references(shapes.take(i)), shapes[i]) == Some(error),
    ensures
        first_defect(shapes) == Some(error),
{
    assert(shapes.take(i + 1).drop_last() =~= shapes.take(i));
    lemma_first_defect_prefix(shapes, i + 1);
}

/// Every error of a run comes from a first shape with a defect: no shape
/// before it has one, and its defect is the error.
pub proof fn lemma_defect_has_a_first_shape(shapes: Seq<Primitive>, error: StructuralError) -> (i: int)
    requires
        first_defect(shapes) == Some(error),
    ensures
        0 <= i < shapes.len(),
        first_defect(shapes.take(i)) is None,
        shape_defect(references(shapes.take(i)), shapes[i]) == Some(error),
    decreases shapes.len(),
{
    let init = shapes.drop_last();
    if first_defect(init) is Some {
        let i = lemma_defect_has_a_first_shape(init, error);
        assert(init.take(i) =~= shapes.take(i));
        i
    } else {
        assert(shapes.take(shapes.len() - 1) =~= init);
        shapes.len() - 1
    }
}

/// A file with no object, or with more than one, is rejected for that.
pub proof fn lemma_rejects_other_than_one_object(objects: Seq<ObjectModel>)
    requires
        objects.len() != 1,
    ensures
        selection_outcome(objects) == Err::<MeshModel, StructuralError>(StructuralError::ExpectedSingleObject),
{
}

/// An object with no geometry group, or with more than one, is rejected for that.
pub proof fn lemma_rejects_other_than_one_geometry(object: ObjectModel)
    requires
        object.geometry.len() != 1,
    ensures
        build_outcome(object) == Err::<MeshModel, StructuralError>(StructuralError::ExpectedSingleGeometry),
        selection_outcome(seq![object]) == build_outcome(object),
{
}

/// An object with a shape that is no triangle gives no mesh; where no shape
/// before it has a defect, the error says so.
pub proof fn lemma_rejects_non_triangle(object: ObjectModel, i: int)
    requires
        object.geometry.len() == 1,
        0 <= i < object.geometry[0].len(),
        !(object.geometry[0][i] is Triangle),
    ensures
        build_outcome(object) is Err,
        first_defect(object.geometry[0].take(i)) is None ==> build_outcome(object) == Err::<
            MeshModel,
            StructuralError,
        >(StructuralError::UnsupportedShape),
{
    let shapes = object.geometry[0];
    if first_defect(shapes) is None {
        lemma_defect_free(shapes);
    }
    if first_defect(shapes.take(i)) is None {
        lemma_first_defect_decides(shapes, i, StructuralError::UnsupportedShape);
    }
}

/// An object with a triangle corner that has no normal gives no mesh; where
/// no shape before that triangle has a defect, and no corner of the triangle
/// before that corner, the error says so.
pub proof fn lemma_rejects_missing_normal(object: ObjectModel, i: int, corner: int)
    requires
        object.geometry.len() == 1,
        0 <= i < object.geometry[0].len(),
        object.geometry[0][i] is Triangle,
        0 <= corner < 3,
        object.geometry[0][i].corners()[corner].normal is None,
    ensures
        build_outcome(object) is Err,
        ({
            let before = references(object.geometry[0].take(i));
            let corners = object.geometry[0][i].corners();
            &&& first_defect(object.geometry[0].take(i)) is None
            &&& forall|c: int|
                0 <= c < corner ==> corner_defect(
                    first_occurrences(before + corners.take(c)),
                    #[trigger] corners[c],
                ) is None
        }) ==> build_outcome(object) == Err::<MeshModel, StructuralError>(StructuralError::MissingNormal),
{
    let shapes = object.geometry[0];
    let before = references(shapes.take(i));
    let corners = shapes[i].corners();
    if first_defect(shapes) is None {
        lemma_defect_free(shapes);
        lemma_references_hold_corners(shapes, i, corner);
    }
    if first_defect(shapes.take(i)) is None && (forall|c: int|
        0 <= c < corner ==> corner_defect(first_occurrences(before + corners.take(c)), #[trigger] corners[c])
            is None) {
        lemma_defect_free(shapes.take(i));
        match shapes[i] {
            Primitive::Triangle(a, b, c) => {
                assert(before + corners.take(1) =~= before.push(a));
                if corner == 0 {
                    lemma_missing_normal_defect(before, a);
                } else {
                    lemma_corner_accepted(before, a);
                    if corner == 1 {
                        lemma_missing_normal_defect(before.push(a), b);
                    } else {
                        lemma_corner_accepted(before.push(a), b);
                        lemma_missing_normal_defect(before.push(a).push(b), c);
                    }
                }
                lemma_first_defect_decides(shapes, i, StructuralError::MissingNormal);
            },
            _ => {},
        }
    }
}

/// A key without a normal is new to references that all have one, and so
/// is turned away for its missing normal.
proof fn lemma_missing_normal_defect(before: Seq<VertexKey>, key: VertexKey)
    requires
        forall|t: int| 0 <= t < before.len() ==> (#[trigger] before[t]).normal is Some,
        key.normal is None,
    ensures
        corner_defect(first_occurrences(before), key) == Some(StructuralError::MissingNormal),
{
    lemma_first_occurrences_distinct(before);
    if first_occurrences(before).contains(key) {
        assert(before.contains(key));
    }
}

/// Each corner of each shape stands among the corner references of the run.
pub proof fn lemma_references_hold_corners(shapes: Seq<Primitive>, i: int, corner: int)
    requires
        0 <= i < shapes.len(),
        0 <= corner < shapes[i].corners().len(),
    ensures
        references(shapes).contains(shapes[i].corners()[corner]),
    decreases shapes.len(),
{
    let init = shapes.drop_last();
    let refs = references(shapes);
    if i < init.len() {
        lemma_references_hold_corners(init, i, corner);
        let t = choose|t: int| 0 <= t < references(init).len() && references(init)[t] == init[i].corners()[corner];
        assert(refs[t] == shapes[i].corners()[corner]);
    } else {
        assert(refs[references(init).len() + corner] == shapes[i].corners()[corner]);
    }
}

} // verus!
