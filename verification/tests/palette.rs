use ruplace::color::Rgba;
use ruplace::palette::palette;

fn rgba(r: u8, g: u8, b: u8, a: u8) -> Rgba {
    Rgba { r, g, b, a }
}

#[test]
fn palette_maps_all_sixteen_indices() {
    let expected = vec![
        rgba(255, 255, 255, 255),
        rgba(228, 228, 228, 255),
        rgba(136, 136, 136, 255),
        rgba(34, 34, 34, 255),
        rgba(255, 167, 209, 255),
        rgba(229, 0, 0, 255),
        rgba(229, 149, 0, 255),
        rgba(160, 106, 66, 255),
        rgba(229, 217, 0, 255),
        rgba(148, 224, 68, 255),
        rgba(2, 190, 1, 255),
        rgba(0, 211, 221, 255),
        rgba(0, 131, 199, 255),
        rgba(0, 0, 234, 255),
        rgba(207, 110, 228, 255),
        rgba(130, 0, 128, 255),
    ];
    assert_eq!(expected.len(), 16);
    for i in 0..16u8 {
        assert_eq!(palette(i), expected[i as usize]);
    }
}

#[test]
fn palette_alpha_is_always_opaque() {
    for i in 0..16u8 {
        assert_eq!(palette(i).a, 255);
    }
}
