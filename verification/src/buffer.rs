use vstd::prelude::*;

use vstd::arithmetic::div_mod::lemma_fundamental_div_mod;
use vstd::arithmetic::div_mod::lemma_fundamental_div_mod_converse_mod;

use crate::color::channel;
use crate::color::Rgba;

verus! {

/// Length of the flat byte view: 1000 x 1000 pixels, 4 bytes each.
pub const FLAT_LEN: usize = 4000000;

/// Index of the first byte of pixel (x, y) in the flat row-major view.
pub open spec fn pixel_index(x: int, y: int) -> int {
    4 * (y * 1000 + x)
}

/// The color stored at pixel (x, y) of a flat row-major byte view.
pub open spec fn pixel_of(s: Seq<u8>, x: int, y: int) -> Rgba {
    Rgba {
        r: s[pixel_index(x, y)],
        g: s[pixel_index(x, y) + 1],
        b: s[pixel_index(x, y) + 2],
        a: s[pixel_index(x, y) + 3],
    }
}

/// The decoded canvas: a fixed 1000 x 1000 grid of RGBA cells. The grid is
/// stored from the start as the tightly packed row-major byte sequence that a
/// rendering surface consumes, and the structured accessors are computed by
/// index arithmetic over that one storage, so no reinterpretation step is
/// ever needed between the two views.
pub struct PixelBuffer {
    bytes: Vec<u8>,
}

impl View for PixelBuffer {
    type V = Seq<u8>;

    closed spec fn view(&self) -> Seq<u8> {
        self.bytes@
    }
}

/// Distinct grid positions occupy disjoint 4-byte slots of the flat view.
proof fn lemma_pixel_index_disjoint(x1: int, y1: int, x2: int, y2: int)
    requires
        0 <= x1 < 1000,
        0 <= y1 < 1000,
        0 <= x2 < 1000,
        0 <= y2 < 1000,
        x1 != x2 || y1 != y2,
    ensures
        pixel_index(x1, y1) + 4 <= pixel_index(x2, y2) || pixel_index(x2, y2) + 4 <= pixel_index(
            x1,
            y1,
        ),
{
}

/// A flat view whose every byte holds its channel of one color `c` shows `c`
/// at every grid position.
proof fn lemma_uniform_fill(s: Seq<u8>, c: Rgba)
    requires
        s.len() == FLAT_LEN,
        forall|i: int| 0 <= i < s.len() ==> s[i] == channel(c, i % 4),
    ensures
        forall|x: int, y: int| 0 <= x < 1000 && 0 <= y < 1000 ==> pixel_of(s, x, y) == c,
{
    assert forall|x: int, y: int| 0 <= x < 1000 && 0 <= y < 1000 implies pixel_of(s, x, y) == c by {
        let q = y * 1000 + x;
        assert(0 <= q < 1000000);
        lemma_fundamental_div_mod_converse_mod(4 * q, 4, q, 0);
        lemma_fundamental_div_mod_converse_mod(4 * q + 1, 4, q, 1);
        lemma_fundamental_div_mod_converse_mod(4 * q + 2, 4, q, 2);
        lemma_fundamental_div_mod_converse_mod(4 * q + 3, 4, q, 3);
    }
}

/// Layout law: the flat byte view is exactly the row-major concatenation of
/// the grid's (R, G, B, A) tuples — byte `i` holds channel `i % 4` of the
/// pixel at column `(i / 4) % 1000` of row `(i / 4) / 1000`.
pub proof fn lemma_flat_view_is_row_major(s: Seq<u8>)
    requires
        s.len() == FLAT_LEN,
    ensures
        forall|i: int|
            0 <= i < s.len() ==> s[i] == channel(
                pixel_of(s, (i / 4) % 1000, (i / 4) / 1000),
                i % 4,
            ),
{
    assert forall|i: int|
        0 <= i < s.len() implies s[i] == channel(
        pixel_of(s, (i / 4) % 1000, (i / 4) / 1000),
        i % 4,
    ) by {
        let q = i / 4;
        let k = i % 4;
        lemma_fundamental_div_mod(i, 4);
        assert(0 <= k < 4);
        assert(0 <= q < 1000000);
        let x = q % 1000;
        let y = q / 1000;
        lemma_fundamental_div_mod(q, 1000);
        assert(0 <= x < 1000);
        assert(0 <= y < 1000);
        assert(pixel_index(x, y) == 4 * q);
    }
}

impl PixelBuffer {
    /// Well-formed: the storage holds exactly one 4-byte RGBA cell for each
    /// of the 1,000,000 grid positions.
    pub open spec fn wf(&self) -> bool {
        self@.len() == FLAT_LEN
    }

    /// Allocate the grid once, with every cell set to `sentinel`.
    pub fn new(sentinel: Rgba) -> (buf: PixelBuffer)
        ensures
            buf.wf(),
            forall|x: int, y: int|
                0 <= x < 1000 && 0 <= y < 1000 ==> pixel_of(buf@, x, y) == sentinel,
    {
        let mut bytes: Vec<u8> = Vec::new();
        let mut p: usize = 0;
        while p < 1000000
            invariant
                p <= 1000000,
                bytes@.len() == 4 * p,
                forall|i: int| 0 <= i < bytes@.len() ==> bytes@[i] == channel(sentinel, i % 4),
            decreases 1000000 - p,
        {
            bytes.push(sentinel.r);
            bytes.push(sentinel.g);
            bytes.push(sentinel.b);
            bytes.push(sentinel.a);
            proof {
                lemma_fundamental_div_mod_converse_mod(4 * p as int, 4, p as int, 0);
                lemma_fundamental_div_mod_converse_mod(4 * p as int + 1, 4, p as int, 1);
                lemma_fundamental_div_mod_converse_mod(4 * p as int + 2, 4, p as int, 2);
                lemma_fundamental_div_mod_converse_mod(4 * p as int + 3, 4, p as int, 3);
            }
            p = p + 1;
        }
        let buf = PixelBuffer { bytes };
        proof {
            lemma_uniform_fill(buf@, sentinel);
        }
        buf
    }

    /// Read the cell at column `x` of row `y`.
    pub fn get(&self, x: usize, y: usize) -> (c: Rgba)
        requires
            self.wf(),
            x < 1000,
            y < 1000,
        ensures
            c == pixel_of(self@, x as int, y as int),
    {
        let base: usize = 4 * (y * 1000 + x);
        Rgba {
            r: self.bytes[base],
            g: self.bytes[base + 1],
            b: self.bytes[base + 2],
            a: self.bytes[base + 3],
        }
    }

    /// Overwrite the cell at column `x` of row `y` with `c`, leaving every
    /// other cell as it was.
    pub fn set(&mut self, x: usize, y: usize, c: Rgba)
        requires
            old(self).wf(),
            x < 1000,
            y < 1000,
        ensures
            final(self).wf(),
            pixel_of(final(self)@, x as int, y as int) == c,
            forall|xx: int, yy: int|
                0 <= xx < 1000 && 0 <= yy < 1000 && (xx != x || yy != y) ==> pixel_of(
                    final(self)@,
                    xx,
                    yy,
                ) == pixel_of(old(self)@, xx, yy),
    {
        let base: usize = 4 * (y * 1000 + x);
        self.bytes.set(base, c.r);
        self.bytes.set(base + 1, c.g);
        self.bytes.set(base + 2, c.b);
        self.bytes.set(base + 3, c.a);
        proof {
            assert forall|xx: int, yy: int|
                0 <= xx < 1000 && 0 <= yy < 1000 && (xx != x || yy != y) implies pixel_of(
                self@,
                xx,
                yy,
            ) == pixel_of(old(self)@, xx, yy) by {
                lemma_pixel_index_disjoint(xx, yy, x as int, y as int);
            }
        }
    }

    /// The flat byte view: the very storage the grid accessors read, handed
    /// out for texture upload without a copy or a reformatting step.
    pub fn as_flat_bytes(&self) -> (s: &Vec<u8>)
        ensures
            s@ == self@,
    {
        &self.bytes
    }
}

} // verus!
