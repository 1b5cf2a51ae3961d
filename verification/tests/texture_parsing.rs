use voxel_world::texture::{
    build_palette, expand_pixels, hex_byte, hex_val, parse_color, parse_texture, palette_lookup,
    PaletteEntry, TextureError,
};
use voxel_world::voxel::{
    create_cube_indices, create_cube_indices_selective, create_cube_vertices_selective,
    create_wireframe_cube_indices, FaceTextures,
};

#[test]
fn test_simple_texture_parsing() {
    let content = r#"
# Test texture
size: 2x2
palette:
  . = #FF0000  # Red
  # = #00FF00  # Green

pixels:
.#
#.
"#;
    let _ = content;
}

fn chars(s: &str) -> Vec<char> {
    s.chars().collect()
}

#[test]
fn hex_digits_parse_exactly() {
    assert_eq!(hex_val('0'), Some(0));
    assert_eq!(hex_val('9'), Some(9));
    assert_eq!(hex_val('a'), Some(10));
    assert_eq!(hex_val('f'), Some(15));
    assert_eq!(hex_val('A'), Some(10));
    assert_eq!(hex_val('F'), Some(15));
    assert_eq!(hex_val('g'), None);
    assert_eq!(hex_val(' '), None);
    assert_eq!(hex_byte('f', 'f'), Some(255));
    assert_eq!(hex_byte('0', 'a'), Some(10));
    assert_eq!(hex_byte('7', 'x'), None);
}

#[test]
fn colors_parse_exactly() {
    assert_eq!(
        parse_color(&chars("#ff00aa")),
        Some(PaletteEntry { r: 255, g: 0, b: 170, a: 255 })
    );
    assert_eq!(
        parse_color(&chars("#FF000080")),
        Some(PaletteEntry { r: 255, g: 0, b: 0, a: 128 })
    );
    assert_eq!(
        parse_color(&chars("transparent")),
        Some(PaletteEntry { r: 0, g: 0, b: 0, a: 0 })
    );
    assert_eq!(parse_color(&chars("#ff00")), None);
    assert_eq!(parse_color(&chars("red")), None);
    assert_eq!(parse_color(&chars("#gg0000")), None);
}

#[test]
fn palette_later_entries_shadow_earlier() {
    let pairs = vec![
        (chars("x"), chars("#ff0000")),
        (chars("x"), chars("#00ff00")),
        (chars(""), chars("#0000ff")),
        (chars("y"), chars("nonsense")),
    ];
    let palette = build_palette(&pairs);
    assert_eq!(palette.len(), 2);
    assert_eq!(
        palette_lookup(&palette, 'x'),
        Some(PaletteEntry { r: 0, g: 255, b: 0, a: 255 })
    );
    assert_eq!(palette_lookup(&palette, 'y'), None);
}

#[test]
fn pixel_grid_expands_with_magenta_fallback() {
    let pairs = vec![
        (chars("."), chars("#ff0000")),
        (chars("#"), chars("#00ff00")),
    ];
    let palette = build_palette(&pairs);
    let rows = vec![chars(".#"), chars("#?")];
    let pixels = expand_pixels(&palette, &rows, 2, 2).unwrap();
    assert_eq!(
        pixels,
        vec![
            255, 0, 0, 255, 0, 255, 0, 255, // first row
            0, 255, 0, 255, 255, 0, 255, 255, // second row: '?' is magenta
        ]
    );
}

#[test]
fn texture_errors_are_reported_in_order() {
    let palette = build_palette(&vec![(chars("."), chars("#ff0000"))]);
    assert_eq!(
        expand_pixels(&palette, &vec![], 0, 2),
        Err(TextureError::InvalidDimensions)
    );
    assert_eq!(
        expand_pixels(&palette, &vec![chars("..")], 2, 2),
        Err(TextureError::RowCountMismatch { expected: 2, found: 1 })
    );
    assert_eq!(
        expand_pixels(&palette, &vec![chars(".."), chars(".")], 2, 2),
        Err(TextureError::RowWidthMismatch { row: 1, found: 1, expected: 2 })
    );
}

#[test]
fn full_texture_assembles() {
    let pairs = vec![
        (chars("."), chars("#ff0000")),
        (chars("#"), chars("transparent")),
    ];
    let rows = vec![chars(".#"), chars("#.")];
    let t = parse_texture(String::from("checker"), 2, 2, &pairs, &rows).unwrap();
    assert_eq!(t.name, "checker");
    assert_eq!(t.width, 2);
    assert_eq!(t.height, 2);
    assert_eq!(
        t.pixels,
        vec![255, 0, 0, 255, 0, 0, 0, 0, 0, 0, 0, 0, 255, 0, 0, 255]
    );
}

#[test]
fn cube_index_lists_are_fixed() {
    let full = create_cube_indices();
    assert_eq!(full.len(), 36);
    assert_eq!(&full[0..6], &[0, 1, 2, 2, 3, 0]);
    assert_eq!(&full[30..36], &[20, 21, 22, 22, 23, 20]);

    let sel = create_cube_indices_selective(&vec![0, 4], 8);
    assert_eq!(sel, vec![8, 9, 10, 10, 11, 8, 12, 13, 14, 14, 15, 12]);

    let wire = create_wireframe_cube_indices();
    assert_eq!(wire.len(), 24);
    assert_eq!(&wire[0..8], &[0, 1, 1, 2, 2, 3, 3, 0]);
}

#[test]
fn selective_vertices_follow_face_list() {
    let tex = FaceTextures::new(1, 2, 3, 4, 5, 6);
    let vs = create_cube_vertices_selective(10, 20, 30, &tex, &vec![4]);
    assert_eq!(vs.len(), 4);
    for v in &vs {
        assert_eq!(v.y, 21); // the top face lies on the upper lattice plane
        assert_eq!((v.nx, v.ny, v.nz), (0, 1, 0));
        assert_eq!(v.texture_id, 5);
    }
    let empty = create_cube_vertices_selective(0, 0, 0, &tex, &vec![]);
    assert!(empty.is_empty());

    let all = FaceTextures::all_same(9);
    assert_eq!(all.front, 9);
    assert_eq!(all.bottom, 9);
}

#[test]
fn full_cube_has_24_vertices() {
    let tex = voxel_world::voxel::FaceTextures::new(1, 2, 3, 4, 5, 6);
    let vs = voxel_world::voxel::create_cube_vertices_minecraft(0, 0, 0, &tex);
    assert_eq!(vs.len(), 24);
    assert_eq!(vs[0].texture_id, 1); // front face comes first
    assert_eq!(vs[23].texture_id, 6); // bottom face comes last
    let plain = voxel_world::voxel::create_cube_vertices(0, 0, 0, 7);
    assert_eq!(plain.len(), 24);
    assert!(plain.iter().all(|v| v.texture_id == 7));
}
