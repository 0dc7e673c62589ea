use ruplace::buffer::PixelBuffer;
use ruplace::color::Rgba;

fn sentinel() -> Rgba {
    Rgba { r: 255, g: 255, b: 0, a: 255 }
}

#[test]
fn buffer_initializes_every_cell_to_sentinel() {
    let buf = PixelBuffer::new(sentinel());
    let flat = buf.as_flat_bytes();
    assert_eq!(flat.len(), 4_000_000);
    for p in 0..1_000_000 {
        assert_eq!(flat[4 * p], 255);
        assert_eq!(flat[4 * p + 1], 255);
        assert_eq!(flat[4 * p + 2], 0);
        assert_eq!(flat[4 * p + 3], 255);
    }
    assert_eq!(buf.get(0, 0), sentinel());
    assert_eq!(buf.get(999, 999), sentinel());
}

#[test]
fn buffer_set_changes_one_cell_only() {
    let mut buf = PixelBuffer::new(sentinel());
    let red = Rgba { r: 229, g: 0, b: 0, a: 255 };
    buf.set(3, 5, red);
    assert_eq!(buf.get(3, 5), red);
    assert_eq!(buf.get(2, 5), sentinel());
    assert_eq!(buf.get(4, 5), sentinel());
    assert_eq!(buf.get(3, 4), sentinel());
    assert_eq!(buf.get(3, 6), sentinel());
    assert_eq!(buf.get(0, 0), sentinel());
    assert_eq!(buf.get(999, 999), sentinel());
}

#[test]
fn flat_view_is_row_major_concatenation_of_grid() {
    let mut buf = PixelBuffer::new(sentinel());
    buf.set(0, 0, Rgba { r: 1, g: 2, b: 3, a: 4 });
    buf.set(999, 0, Rgba { r: 5, g: 6, b: 7, a: 8 });
    buf.set(0, 999, Rgba { r: 9, g: 10, b: 11, a: 12 });
    buf.set(999, 999, Rgba { r: 13, g: 14, b: 15, a: 16 });
    buf.set(421, 387, Rgba { r: 17, g: 18, b: 19, a: 20 });
    let flat = buf.as_flat_bytes();
    assert_eq!(flat.len(), 4_000_000);
    for y in 0..1000 {
        for x in 0..1000 {
            let c = buf.get(x, y);
            let base = 4 * (y * 1000 + x);
            assert_eq!(flat[base], c.r);
            assert_eq!(flat[base + 1], c.g);
            assert_eq!(flat[base + 2], c.b);
            assert_eq!(flat[base + 3], c.a);
        }
    }
}
