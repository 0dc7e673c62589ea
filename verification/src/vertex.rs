use vstd::prelude::*;

verus! {

/// One corner of the textured quad that displays the canvas. The corners of
/// the quad and its texture coordinates are small integers; the GPU layer
/// converts them to its own floating-point vertex format.
#[derive(Clone, Copy, Debug, PartialEq, Eq)]
pub struct Vertex {
    /// Homogeneous position: the given point with a fourth coordinate of 1.
    pub pos: [i8; 4],
    /// Texture coordinate assigned to the corner.
    pub tex_coord: [i8; 2],
}

impl Vertex {
    /// Build the corner at point `p` with texture coordinate `t`.
    pub fn new(p: [i8; 3], t: [i8; 2]) -> (v: Vertex)
        ensures
            v.pos@ == seq![p@[0], p@[1], p@[2], 1i8],
            v.tex_coord@ == t@,
    {
        Vertex { pos: [p[0], p[1], p[2], 1], tex_coord: t }
    }
}

} // verus!
