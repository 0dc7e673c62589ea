use ruplace::vertex::Vertex;

#[test]
fn vertex_new_appends_unit_fourth_coordinate() {
    let v = Vertex::new([-1, -1, 0], [0, 0]);
    assert_eq!(v.pos, [-1, -1, 0, 1]);
    assert_eq!(v.tex_coord, [0, 0]);
}

#[test]
fn vertex_new_keeps_texture_coordinates() {
    let v = Vertex::new([1, -1, 0], [1, 0]);
    assert_eq!(v.pos, [1, -1, 0, 1]);
    assert_eq!(v.tex_coord, [1, 0]);
    let w = Vertex::new([1, 1, 0], [1, 1]);
    assert_eq!(w.pos, [1, 1, 0, 1]);
    assert_eq!(w.tex_coord, [1, 1]);
}
