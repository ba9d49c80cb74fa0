use mesh_viewer::error::{LoadError, StructuralError};
use mesh_viewer::mesh::{single_geometry, single_object, Obj};
use mesh_viewer::source::{Coordinates, Geometry, Object, Primitive, VertexKey};
use mesh_viewer::vertex::{Vertex, VertexSemantics};
use mesh_viewer::wavefront::{is_parser_defined_on, parse_objects};

fn bits(x: f64, y: f64, z: f64) -> Coordinates {
    Coordinates { x: x.to_bits(), y: y.to_bits(), z: z.to_bits() }
}

fn key(position: usize, normal: usize) -> VertexKey {
    VertexKey { position, texture: None, normal: Some(normal) }
}

fn textured(position: usize, texture: usize, normal: usize) -> VertexKey {
    VertexKey { position, texture: Some(texture), normal: Some(normal) }
}

fn bare(position: usize) -> VertexKey {
    VertexKey { position, texture: None, normal: None }
}

/// An object with `positions` positions, `normals` normals and one geometry group.
fn object_of(positions: usize, normals: usize, shapes: Vec<Primitive>) -> Object {
    Object {
        name: String::from("object"),
        positions: (0..positions).map(|i| bits(i as f64, 0.0, 0.0)).collect(),
        normals: (0..normals).map(|i| bits(0.0, 1.0, i as f64)).collect(),
        geometry: vec![Geometry { shapes }],
    }
}

fn vertex(position: usize, normal: usize) -> Vertex {
    Vertex { position: bits(position as f64, 0.0, 0.0), normal: bits(0.0, 1.0, normal as f64) }
}

const QUAD: &str = "o quad
v 0.0 0.0 0.0
v 1.0 0.0 0.0
v 1.0 1.0 0.0
v 0.0 1.0 0.0
vn 0.0 0.0 1.0
f 1//1 2//1 3//1
f 1//1 3//1 4//1
";

#[test]
fn quad_of_two_triangles_has_four_vertices_and_six_indices() {
    let quad = object_of(
        4,
        1,
        vec![
            Primitive::Triangle(key(0, 0), key(1, 0), key(2, 0)),
            Primitive::Triangle(key(0, 0), key(2, 0), key(3, 0)),
        ],
    );
    let mesh = Obj::build(&quad).unwrap();
    assert_eq!(mesh.vertices().len(), 4);
    assert_eq!(mesh.indices().len(), 6);
    assert_eq!(mesh.indices(), &vec![0, 1, 2, 0, 2, 3]);
    assert_eq!(mesh.vertices(), &vec![vertex(0, 0), vertex(1, 0), vertex(2, 0), vertex(3, 0)]);
}

#[test]
fn single_triangle_keeps_its_three_vertices_in_order() {
    let triangle = object_of(3, 3, vec![Primitive::Triangle(key(2, 1), key(0, 2), key(1, 0))]);
    let mesh = Obj::build(&triangle).unwrap();
    assert_eq!(mesh.indices(), &vec![0, 1, 2]);
    assert_eq!(mesh.vertices(), &vec![vertex(2, 1), vertex(0, 2), vertex(1, 0)]);
}

#[test]
fn quad_file_shares_the_vertices_of_its_diagonal() {
    let mesh = Obj::load(QUAD).unwrap();
    assert_eq!(mesh.vertices().len(), 4);
    assert_eq!(mesh.indices().len(), 6);
    // the parser lists the last corner of a face first
    assert_eq!(mesh.indices(), &vec![0, 1, 2, 3, 1, 0]);
    let normal = bits(0.0, 0.0, 1.0);
    assert_eq!(
        mesh.vertices(),
        &vec![
            Vertex { position: bits(1.0, 1.0, 0.0), normal },
            Vertex { position: bits(0.0, 0.0, 0.0), normal },
            Vertex { position: bits(1.0, 0.0, 0.0), normal },
            Vertex { position: bits(0.0, 1.0, 0.0), normal },
        ]
    );
}

#[test]
fn a_polygon_with_four_corners_arrives_as_two_triangles() {
    let text = "v 0 0 0\nv 1 0 0\nv 1 1 0\nv 0 1 0\nvn 0 0 1\nf 1//1 2//1 3//1 4//1\n";
    let mesh = Obj::load(text).unwrap();
    assert_eq!(mesh.vertices().len(), 4);
    assert_eq!(mesh.indices(), &vec![0, 1, 2, 0, 2, 3]);
    assert_eq!(mesh.vertices()[0], Vertex { position: bits(0.0, 1.0, 0.0), normal: bits(0.0, 0.0, 1.0) });
}

#[test]
fn vertex_count_is_the_number_of_distinct_keys() {
    let shapes = vec![
        Primitive::Triangle(key(0, 0), key(1, 0), key(2, 0)),
        Primitive::Triangle(key(2, 0), key(1, 0), key(0, 0)),
        Primitive::Triangle(key(0, 1), key(1, 0), key(3, 1)),
        Primitive::Triangle(key(3, 1), key(3, 1), key(3, 1)),
    ];
    let mesh = Obj::build(&object_of(4, 2, shapes)).unwrap();
    // distinct keys: (0,0) (1,0) (2,0) (0,1) (3,1)
    assert_eq!(mesh.vertices().len(), 5);
    assert_eq!(mesh.indices().len(), 12);
    assert!(mesh.vertices().len() <= mesh.indices().len());
    assert_eq!(mesh.indices(), &vec![0, 1, 2, 2, 1, 0, 3, 1, 4, 4, 4, 4]);
}

#[test]
fn every_index_names_a_vertex() {
    let shapes = vec![
        Primitive::Triangle(key(3, 0), key(1, 1), key(3, 0)),
        Primitive::Triangle(key(0, 0), key(1, 1), key(2, 1)),
    ];
    let object = object_of(4, 2, shapes);
    let mesh = Obj::build(&object).unwrap();
    let refs = [key(3, 0), key(1, 1), key(3, 0), key(0, 0), key(1, 1), key(2, 1)];
    for (at, index) in mesh.indices().iter().enumerate() {
        assert!((*index as usize) < mesh.vertices().len());
        let r = refs[at];
        assert_eq!(mesh.vertices()[*index as usize], vertex(r.position, r.normal.unwrap()));
    }
}

#[test]
fn vertices_stand_in_order_of_first_occurrence() {
    let shapes = vec![
        Primitive::Triangle(key(2, 0), key(2, 0), key(0, 0)),
        Primitive::Triangle(key(1, 0), key(0, 0), key(2, 0)),
        Primitive::Triangle(key(3, 0), key(1, 0), key(3, 0)),
    ];
    let mesh = Obj::build(&object_of(4, 1, shapes)).unwrap();
    assert_eq!(mesh.vertices(), &vec![vertex(2, 0), vertex(0, 0), vertex(1, 0), vertex(3, 0)]);
    assert_eq!(mesh.indices(), &vec![0, 0, 1, 2, 1, 0, 3, 2, 3]);
}

#[test]
fn keys_are_compared_by_their_indices_not_by_what_they_refer_to() {
    // positions 0 and 1 hold the same coordinates
    let mut object = object_of(3, 1, vec![Primitive::Triangle(key(0, 0), key(1, 0), key(2, 0))]);
    object.positions[1] = object.positions[0];
    let mesh = Obj::build(&object).unwrap();
    assert_eq!(mesh.vertices().len(), 3);
    assert_eq!(mesh.vertices()[0], mesh.vertices()[1]);
    assert_eq!(mesh.indices(), &vec![0, 1, 2]);
}

#[test]
fn texture_index_is_part_of_the_key() {
    let shapes = vec![
        Primitive::Triangle(textured(0, 0, 0), textured(0, 1, 0), key(0, 0)),
        Primitive::Triangle(textured(0, 1, 0), key(0, 0), textured(0, 0, 0)),
    ];
    let mesh = Obj::build(&object_of(1, 1, shapes)).unwrap();
    assert_eq!(mesh.vertices(), &vec![vertex(0, 0), vertex(0, 0), vertex(0, 0)]);
    assert_eq!(mesh.indices(), &vec![0, 1, 2, 1, 2, 0]);
}

#[test]
fn no_shapes_give_an_empty_mesh() {
    let mesh = Obj::build(&object_of(2, 1, vec![])).unwrap();
    assert!(mesh.vertices().is_empty());
    assert!(mesh.indices().is_empty());
}

#[test]
fn into_parts_gives_vertices_and_indices() {
    let object = object_of(3, 1, vec![Primitive::Triangle(key(0, 0), key(1, 0), key(0, 0))]);
    let (vertices, indices) = Obj::build(&object).unwrap().into_parts();
    assert_eq!(vertices, vec![vertex(0, 0), vertex(1, 0)]);
    assert_eq!(indices, vec![0, 1, 0]);
}

#[test]
fn parsed_objects_are_built_into_a_mesh() {
    let object = object_of(3, 2, vec![Primitive::Triangle(key(0, 1), key(1, 1), key(0, 1))]);
    let built = Obj::from_objects(&vec![object.clone()]).unwrap();
    assert_eq!(built.vertices(), &vec![vertex(0, 1), vertex(1, 1)]);
    assert_eq!(built.indices(), &vec![0, 1, 0]);
    let loaded = Obj::from_parse(Ok(vec![object])).unwrap();
    assert_eq!(loaded.vertices(), built.vertices());
    assert_eq!(loaded.indices(), built.indices());
    assert_eq!(single_object(&parse_objects(QUAD).unwrap()).map(|o| o.name.clone()), Ok(String::from("quad")));
}

#[test]
fn two_objects_are_rejected() {
    let object = object_of(3, 1, vec![Primitive::Triangle(key(0, 0), key(1, 0), key(2, 0))]);
    let objects = vec![object.clone(), object];
    assert_eq!(single_object(&objects), Err(StructuralError::ExpectedSingleObject));
    assert!(matches!(Obj::from_objects(&objects), Err(StructuralError::ExpectedSingleObject)));
    let text = "o a\nv 0 0 0\nv 1 0 0\nv 0 1 0\nvn 0 0 1\nf 1//1 2//1 3//1\n\
                o b\nv 0 0 0\nv 1 0 0\nv 0 1 0\nvn 0 0 1\nf 4//2 5//2 6//2\n";
    assert_eq!(parse_objects(text).unwrap().len(), 2);
    assert!(matches!(Obj::load(text), Err(LoadError::Structure(StructuralError::ExpectedSingleObject))));
}

#[test]
fn no_object_is_rejected() {
    assert!(matches!(Obj::from_objects(&vec![]), Err(StructuralError::ExpectedSingleObject)));
    assert!(matches!(Obj::load(""), Err(LoadError::Structure(StructuralError::ExpectedSingleObject))));
}

#[test]
fn two_geometry_groups_are_rejected() {
    let mut object = object_of(3, 1, vec![Primitive::Triangle(key(0, 0), key(1, 0), key(2, 0))]);
    object.geometry.push(Geometry { shapes: vec![Primitive::Triangle(key(2, 0), key(1, 0), key(0, 0))] });
    assert_eq!(single_geometry(&object), Err(StructuralError::ExpectedSingleGeometry));
    assert!(matches!(Obj::build(&object), Err(StructuralError::ExpectedSingleGeometry)));
    assert!(matches!(Obj::from_objects(&vec![object]), Err(StructuralError::ExpectedSingleGeometry)));
    let text = "o a\nv 0 0 0\nv 1 0 0\nv 0 1 0\nvn 0 0 1\n\
                usemtl red\nf 1//1 2//1 3//1\nusemtl blue\nf 3//1 2//1 1//1\n";
    assert_eq!(parse_objects(text).unwrap()[0].geometry.len(), 2);
    assert!(matches!(Obj::load(text), Err(LoadError::Structure(StructuralError::ExpectedSingleGeometry))));
}

#[test]
fn an_object_without_faces_has_no_geometry_group() {
    let text = "o a\nv 0 0 0\nv 1 0 0\nv 0 1 0\n";
    assert!(matches!(Obj::load(text), Err(LoadError::Structure(StructuralError::ExpectedSingleGeometry))));
}

#[test]
fn a_point_or_a_line_is_rejected() {
    let point = object_of(1, 1, vec![Primitive::Point(key(0, 0))]);
    assert!(matches!(Obj::build(&point), Err(StructuralError::UnsupportedShape)));
    let line = object_of(
        3,
        1,
        vec![Primitive::Triangle(key(0, 0), key(1, 0), key(2, 0)), Primitive::Line(key(0, 0), key(1, 0))],
    );
    assert!(matches!(Obj::build(&line), Err(StructuralError::UnsupportedShape)));
    assert!(matches!(
        Obj::from_parse(Ok(vec![line])),
        Err(LoadError::Structure(StructuralError::UnsupportedShape))
    ));
    let text = "v 0 0 0\nv 1 0 0\nvn 0 0 1\nl 1//1 2//1\n";
    assert!(matches!(Obj::load(text), Err(LoadError::Structure(StructuralError::UnsupportedShape))));
}

#[test]
fn a_corner_without_a_normal_is_rejected() {
    let object = object_of(
        3,
        1,
        vec![Primitive::Triangle(key(0, 0), key(1, 0), key(2, 0)), Primitive::Triangle(key(0, 0), bare(1), key(2, 0))],
    );
    assert!(matches!(Obj::build(&object), Err(StructuralError::MissingNormal)));
    let text = "v 0 0 0\nv 1 0 0\nv 0 1 0\nf 1 2 3\n";
    assert!(matches!(Obj::load(text), Err(LoadError::Structure(StructuralError::MissingNormal))));
}

#[test]
fn the_first_defect_decides_the_error() {
    let normal_first = object_of(
        2,
        1,
        vec![Primitive::Triangle(key(0, 0), bare(1), key(0, 0)), Primitive::Point(key(0, 0))],
    );
    assert!(matches!(Obj::build(&normal_first), Err(StructuralError::MissingNormal)));
    let point_first = object_of(
        2,
        1,
        vec![Primitive::Point(key(0, 0)), Primitive::Triangle(key(0, 0), bare(1), key(0, 0))],
    );
    assert!(matches!(Obj::build(&point_first), Err(StructuralError::UnsupportedShape)));
}

#[test]
fn a_parse_failure_is_handed_on() {
    match Obj::load("v 1.0 2.0\n") {
        Err(LoadError::Parse(failure)) => {
            assert_eq!(failure.line_number, 1);
            assert!(!failure.message.is_empty());
        }
        other => panic!("{:?}", other.map(|_| ())),
    }
    let failure = parse_objects("o a\nv 0 0 0\nf 1 2 3\n").unwrap_err();
    assert_eq!(failure.line_number, 3);
    assert_eq!(failure.message, "Expected index in the range [1, 2), but got 2.");
    let handed = Obj::from_parse(Err(failure.clone()));
    assert!(matches!(handed, Err(LoadError::Parse(f)) if f == failure));
}

#[test]
fn parse_keeps_names_tables_and_shapes() {
    let text = "o first\nv 0 0 0\nv 1 0 0\nv 0 1 0\nvn 0 0 1\nvt 0.5 0.5\n\
                usemtl red\nf 1/1/1 2//1 3\nusemtl blue\nl 1 2\nf 3\n\
                o second\nv 0.25 -2 1e3\nvn 0 1 0\nvn 1 0 0\nf 4//3 4//2 4//3\n";
    let objects = parse_objects(text).unwrap();
    assert_eq!(objects.len(), 2);
    let first = &objects[0];
    assert_eq!(first.name, "first");
    assert_eq!(first.positions, vec![bits(0.0, 0.0, 0.0), bits(1.0, 0.0, 0.0), bits(0.0, 1.0, 0.0)]);
    assert_eq!(first.normals, vec![bits(0.0, 0.0, 1.0)]);
    assert_eq!(first.geometry.len(), 2);
    assert_eq!(first.geometry[0].shapes, vec![Primitive::Triangle(bare(2), textured(0, 0, 0), key(1, 0))]);
    assert_eq!(first.geometry[1].shapes, vec![Primitive::Line(bare(0), bare(1)), Primitive::Point(bare(2))]);
    let second = &objects[1];
    assert_eq!(second.name, "second");
    assert_eq!(second.positions, vec![bits(0.25, -2.0, 1000.0)]);
    assert_eq!(second.normals, vec![bits(0.0, 1.0, 0.0), bits(1.0, 0.0, 0.0)]);
    assert_eq!(second.geometry.len(), 1);
    assert_eq!(second.geometry[0].shapes, vec![Primitive::Triangle(key(0, 1), key(0, 1), key(0, 0))]);
    assert!(first.is_well_formed());
    assert!(second.is_well_formed());
}

#[test]
fn well_formedness_is_about_index_ranges() {
    let good = object_of(2, 1, vec![Primitive::Line(key(1, 0), bare(0))]);
    assert!(good.is_well_formed());
    let position_out = object_of(2, 1, vec![Primitive::Line(key(1, 0), bare(2))]);
    assert!(!position_out.is_well_formed());
    let normal_out = object_of(2, 1, vec![Primitive::Triangle(key(0, 0), key(1, 1), key(0, 0))]);
    assert!(!normal_out.is_well_formed());
    assert!(key(1, 0).is_in_range(2, 1));
    assert!(!key(1, 0).is_in_range(1, 1));
    assert!(!key(0, 1).is_in_range(1, 1));
    assert!(bare(0).is_in_range(1, 0));
    assert!(Primitive::Point(bare(0)).is_in_range(1, 0));
    assert!(!Primitive::Point(bare(1)).is_in_range(1, 0));
}

#[test]
fn texts_with_a_long_negative_number_are_left_out() {
    assert!(!is_parser_defined_on("f -9223372036854775807\n"));
    assert!(!is_parser_defined_on(&format!("f {} 1 2\n", isize::MIN)));
    assert!(!is_parser_defined_on(&format!("v 0 0 0\nf -000{} 1 2", (isize::MAX as u128) + 1)));
    assert!(!is_parser_defined_on(&format!("f 1/-{}/1 2 3\n", isize::MAX)));
    assert!(!is_parser_defined_on(&format!("f 1 2 -{}", isize::MAX)));
    assert!(!is_parser_defined_on(&format!("f -{}0 1 2\n", isize::MAX)));
    assert!(!is_parser_defined_on(&format!("-{}", isize::MAX)));
}

#[test]
fn other_texts_can_be_given_to_the_parser() {
    assert!(is_parser_defined_on(QUAD));
    assert!(is_parser_defined_on(""));
    assert!(is_parser_defined_on("-"));
    assert!(is_parser_defined_on("f -1 -2 -3\n"));
    // one digit short of the greatest index
    let short = format!("{}", isize::MAX / 10);
    assert!(is_parser_defined_on(&format!("f -{} 1 2\n", short)));
    assert!(is_parser_defined_on(&format!("f -0000000000000000000000{} 1 2\n", short)));
    assert!(is_parser_defined_on("f -0000000000000000000000000000 1 2\n"));
    // long numbers without a minus sign before them
    assert!(is_parser_defined_on(&format!("# {}\nv {} 0 0\n", isize::MAX, isize::MAX)));
    assert!(is_parser_defined_on(&format!("f - {} 1 2\n", isize::MAX)));
    assert!(is_parser_defined_on(&format!("v -0.{} 0 0\n", isize::MAX)));
    assert!(is_parser_defined_on(&format!("f -{}/{}\n", short, isize::MAX)));
}

#[test]
fn negative_indices_within_reach_are_parse_failures() {
    let text = "v 0 0 0\nv 1 0 0\nv 0 1 0\nf -1 -2 -3\n";
    assert!(is_parser_defined_on(text));
    let failure = parse_objects(text).unwrap_err();
    assert_eq!(failure.line_number, 4);
    let large = format!("v 0 0 0\nf -{} 1 1\n", isize::MAX / 10);
    assert!(is_parser_defined_on(&large));
    assert!(matches!(Obj::load(&large), Err(LoadError::Parse(f)) if f.line_number == 2));
}

#[test]
fn structural_errors_describe_themselves() {
    assert_eq!(StructuralError::ExpectedSingleObject.message(), "expecting a single object");
    assert_eq!(StructuralError::ExpectedSingleGeometry.message(), "expecting a single geometry");
    assert_eq!(StructuralError::UnsupportedShape.message(), "unsupported non-triangle shape");
    assert_eq!(StructuralError::MissingNormal.message(), "missing normal for a vertex");
    assert_eq!(StructuralError::TooManyVertices.message(), "too many vertices for 32-bit indices");
}

#[test]
fn vertex_attributes_are_position_then_normal() {
    assert_eq!(VertexSemantics::Position.index(), 0);
    assert_eq!(VertexSemantics::Normal.index(), 1);
    assert_eq!(VertexSemantics::Position.name(), "position");
    assert_eq!(VertexSemantics::Normal.name(), "normal");
    let v = Vertex::new(bits(1.0, 2.0, 3.0), bits(0.0, 0.0, 1.0));
    assert_eq!(v.attribute(VertexSemantics::Position), bits(1.0, 2.0, 3.0));
    assert_eq!(v.attribute(VertexSemantics::Normal), bits(0.0, 0.0, 1.0));
}
