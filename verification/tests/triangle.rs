use mesh_viewer::triangle::{vertices, Position, Rgb, Vertex, VertexSemantics, HALF, MINUS_HALF, ZERO};

#[test]
fn the_triangle_has_a_red_a_green_and_a_blue_corner() {
    let table = vertices();
    assert_eq!(table.len(), 3);
    let place = |v: &Vertex| (f32::from_bits(v.position.x), f32::from_bits(v.position.y));
    assert_eq!(place(&table[0]), (-0.5, -0.5));
    assert_eq!(place(&table[1]), (0.5, -0.5));
    assert_eq!(place(&table[2]), (0.0, 0.5));
    assert_eq!(table[0].color, Rgb { red: 255, green: 0, blue: 0 });
    assert_eq!(table[1].color, Rgb { red: 0, green: 255, blue: 0 });
    assert_eq!(table[2].color, Rgb { red: 0, green: 0, blue: 255 });
}

#[test]
fn the_bit_patterns_are_those_of_the_floats() {
    assert_eq!(HALF, 0.5f32.to_bits());
    assert_eq!(MINUS_HALF, (-0.5f32).to_bits());
    assert_eq!(ZERO, 0.0f32.to_bits());
}

#[test]
fn triangle_attributes_are_position_then_color() {
    assert_eq!(VertexSemantics::Position.index(), 0);
    assert_eq!(VertexSemantics::Color.index(), 1);
    assert_eq!(VertexSemantics::Position.name(), "position");
    assert_eq!(VertexSemantics::Color.name(), "color");
    let v = Vertex::new(Position { x: ZERO, y: HALF }, Rgb { red: 1, green: 2, blue: 3 });
    assert_eq!(v, Vertex { position: Position { x: 0, y: 0x3F00_0000 }, color: Rgb { red: 1, green: 2, blue: 3 } });
}
