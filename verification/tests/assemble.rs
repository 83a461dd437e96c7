use bonsai::atlas::{check_layout, check_spacing, Rect};
use bonsai::packer::{
    assemble_atlas, atlas_config, build_sprite_table, is_last_with_key, pack_prepared,
    PreparedSprite,
};
use bonsai::pixels::Image;

fn blank(width: u32, height: u32) -> Image {
    Image { width, height, data: vec![0u8; (width * height * 4) as usize] }
}

fn prepared(key: &str, w: u32, h: u32) -> PreparedSprite {
    PreparedSprite { key: key.to_string(), source_size: (w, h), image: blank(w + 2, h + 2) }
}

#[test]
fn rect_intersection_is_strict_about_touching_edges() {
    let a = Rect { x: 0, y: 0, w: 10, h: 10 };
    assert!(a.intersects(&Rect { x: 9, y: 9, w: 5, h: 5 }));
    assert!(!a.intersects(&Rect { x: 10, y: 0, w: 5, h: 5 }));
    assert!(!a.intersects(&Rect { x: 0, y: 10, w: 5, h: 5 }));
    assert!(a.intersects(&Rect { x: 2, y: 2, w: 1, h: 1 }));
    assert!(!Rect { x: u32::MAX - 1, y: 0, w: 1, h: 1 }.intersects(&a));
}

#[test]
fn rect_fits_only_inside_the_given_size() {
    let r = Rect { x: 2, y: 3, w: 4, h: 5 };
    assert!(r.fits(6, 8));
    assert!(!r.fits(5, 8));
    assert!(!r.fits(6, 7));
    assert!(!Rect { x: 0, y: 0, w: 0, h: 1 }.fits(10, 10));
    assert!(!Rect { x: u32::MAX, y: 0, w: 2, h: 1 }.fits(u32::MAX, 10));
}

#[test]
fn layout_check_accepts_disjoint_frames_inside_the_limits() {
    let keys = vec!["a".to_string(), "b".to_string(), "c".to_string()];
    let slots = vec![
        Some(Rect { x: 2, y: 2, w: 10, h: 10 }),
        None,
        Some(Rect { x: 14, y: 2, w: 10, h: 10 }),
    ];
    assert!(check_layout(&keys, &slots, 2048, 2048, 2));
}

#[test]
fn layout_check_rejects_overlap_overflow_and_repeated_keys() {
    let keys = vec!["a".to_string(), "b".to_string()];
    let overlap =
        vec![Some(Rect { x: 2, y: 2, w: 10, h: 10 }), Some(Rect { x: 11, y: 11, w: 4, h: 4 })];
    assert!(!check_layout(&keys, &overlap, 2048, 2048, 2));
    let overflow =
        vec![Some(Rect { x: 2, y: 2, w: 10, h: 10 }), Some(Rect { x: 2040, y: 20, w: 7, h: 4 })];
    assert!(!check_layout(&keys, &overflow, 2048, 2048, 2));
    let at_limit =
        vec![Some(Rect { x: 2, y: 2, w: 10, h: 10 }), Some(Rect { x: 2040, y: 20, w: 6, h: 4 })];
    assert!(check_layout(&keys, &at_limit, 2048, 2048, 2));
    let same = vec!["a".to_string(), "a".to_string()];
    let apart =
        vec![Some(Rect { x: 2, y: 2, w: 10, h: 10 }), Some(Rect { x: 20, y: 2, w: 4, h: 4 })];
    assert!(!check_layout(&same, &apart, 2048, 2048, 2));
    assert!(!check_layout(&keys, &vec![None], 2048, 2048, 2));
    let empty = vec![Some(Rect { x: 2, y: 2, w: 0, h: 10 }), None];
    assert!(!check_layout(&keys, &empty, 2048, 2048, 2));
}

#[test]
fn sprite_table_lists_framed_images_in_order() {
    let sprites = vec![prepared("a", 4, 4), prepared("b", 2, 2), prepared("c", 1, 1)];
    let slots =
        vec![Some(Rect { x: 2, y: 2, w: 6, h: 6 }), None, Some(Rect { x: 10, y: 2, w: 3, h: 3 })];
    let table = build_sprite_table(&sprites, &slots);
    assert_eq!(table.len(), 2);
    assert_eq!(table[0].key, "a");
    assert_eq!(table[0].rect, Rect { x: 2, y: 2, w: 6, h: 6 });
    assert_eq!(table[0].source_size, (4, 4));
    assert!(table[0].extruded);
    assert_eq!(table[1].key, "c");
    assert_eq!(table[1].rect, Rect { x: 10, y: 2, w: 3, h: 3 });
}

#[test]
fn assembling_a_valid_layout_gives_the_atlas() {
    let sprites = vec![prepared("a", 4, 4), prepared("b", 2, 2)];
    let slots =
        vec![Some(Rect { x: 2, y: 2, w: 6, h: 6 }), Some(Rect { x: 10, y: 2, w: 4, h: 4 })];
    let atlas = assemble_atlas(&sprites, &slots, blank(16, 10)).unwrap();
    assert_eq!((atlas.width, atlas.height), (16, 10));
    assert_eq!(atlas.pixels.len(), 16 * 10 * 4);
    assert_eq!(atlas.sprites.len(), 2);
    assert_eq!(atlas.sprites[1].key, "b");
}

#[test]
fn assembling_rejects_what_breaks_the_layout_rules() {
    let sprites = vec![prepared("a", 4, 4), prepared("b", 2, 2)];
    let overlapping =
        vec![Some(Rect { x: 2, y: 2, w: 6, h: 6 }), Some(Rect { x: 7, y: 7, w: 4, h: 4 })];
    let err = assemble_atlas(&sprites, &overlapping, blank(16, 16)).unwrap_err();
    assert_eq!(err.message(), "Build failed: atlas layout violates the packing invariant");
    let fine = vec![Some(Rect { x: 2, y: 2, w: 6, h: 6 }), Some(Rect { x: 10, y: 2, w: 4, h: 4 })];
    // the image is too small for the second frame
    assert!(assemble_atlas(&sprites, &fine, blank(12, 10)).is_err());
    // the image is larger than an atlas may be
    assert!(assemble_atlas(&sprites, &fine, blank(2049, 10)).is_err());
    // the buffer does not match the stated size
    let mut short = blank(16, 10);
    short.data.pop();
    assert!(assemble_atlas(&sprites, &fine, short).is_err());
    // one slot for each image is needed
    assert!(assemble_atlas(&sprites, &vec![None], blank(16, 10)).is_err());
}

#[test]
fn last_image_with_a_key_is_recognised() {
    let sprites = vec![prepared("a", 1, 1), prepared("b", 1, 1), prepared("a", 2, 2)];
    assert!(!is_last_with_key(&sprites, 0));
    assert!(is_last_with_key(&sprites, 1));
    assert!(is_last_with_key(&sprites, 2));
}

#[test]
fn packing_prepared_images_places_them_with_padding() {
    let sprites = vec![prepared("a", 4, 4), prepared("b", 2, 2)];
    let atlas = pack_prepared(&sprites).unwrap();
    assert_eq!(atlas.sprites.len(), 2);
    assert_eq!(atlas.sprites[0].rect, Rect { x: 2, y: 2, w: 6, h: 6 });
    assert_eq!((atlas.sprites[1].rect.w, atlas.sprites[1].rect.h), (4, 4));
    let a = atlas.sprites[0].rect;
    let b = atlas.sprites[1].rect;
    // two free pixels between the frames
    assert!(b.x >= a.x + a.w + 2 || b.y >= a.y + a.h + 2);
}

#[test]
fn atlas_settings_are_bounded_and_plain() {
    let config = atlas_config();
    assert_eq!((config.max_width, config.max_height), (2046, 2046));
    assert_eq!(config.max_width + config.border_padding, 2048);
    assert_eq!((config.border_padding, config.texture_padding), (2, 2));
    assert!(!config.allow_rotation && !config.trim && !config.texture_outlines);
    assert!(!config.force_max_dimensions);
    assert_eq!(config.texture_extrusion, 0);
}

#[test]
fn rects_are_apart_when_a_gap_lies_between_them() {
    let a = Rect { x: 2, y: 2, w: 6, h: 6 };
    assert!(a.is_apart(&Rect { x: 10, y: 2, w: 4, h: 4 }, 2));
    assert!(!a.is_apart(&Rect { x: 9, y: 2, w: 4, h: 4 }, 2));
    assert!(a.is_apart(&Rect { x: 9, y: 2, w: 4, h: 4 }, 1));
    assert!(a.is_apart(&Rect { x: 2, y: 10, w: 4, h: 4 }, 2));
    assert!(a.is_apart(&Rect { x: 8, y: 8, w: 1, h: 1 }, 0));
    assert!(!a.is_apart(&Rect { x: 7, y: 7, w: 1, h: 1 }, 0));
    assert!(!Rect { x: u32::MAX, y: 0, w: u32::MAX, h: 1 }.is_apart(&Rect { x: u32::MAX, y: 0, w: 1, h: 1 }, u32::MAX));
}

#[test]
fn spacing_check_wants_border_and_padding() {
    let good =
        vec![Some(Rect { x: 2, y: 2, w: 6, h: 6 }), None, Some(Rect { x: 10, y: 2, w: 4, h: 4 })];
    assert!(check_spacing(&good, 2, 2));
    assert!(!check_spacing(&good, 3, 2));
    assert!(!check_spacing(&good, 2, 3));
    let touching =
        vec![Some(Rect { x: 2, y: 2, w: 6, h: 6 }), Some(Rect { x: 8, y: 2, w: 4, h: 4 })];
    assert!(!check_spacing(&touching, 2, 2));
    assert!(check_spacing(&touching, 2, 0));
    assert!(check_spacing(&Vec::new(), 2, 2));
}

#[test]
fn assembling_rejects_frames_without_padding_or_border() {
    let sprites = vec![prepared("a", 4, 4), prepared("b", 2, 2)];
    let close = vec![Some(Rect { x: 2, y: 2, w: 6, h: 6 }), Some(Rect { x: 9, y: 2, w: 4, h: 4 })];
    assert!(assemble_atlas(&sprites, &close, blank(20, 12)).is_err());
    let at_edge =
        vec![Some(Rect { x: 0, y: 2, w: 6, h: 6 }), Some(Rect { x: 10, y: 2, w: 4, h: 4 })];
    assert!(assemble_atlas(&sprites, &at_edge, blank(20, 12)).is_err());
    let fine = vec![Some(Rect { x: 2, y: 2, w: 6, h: 6 }), Some(Rect { x: 10, y: 2, w: 4, h: 4 })];
    // the image leaves no border to the right of the second frame
    assert!(assemble_atlas(&sprites, &fine, blank(15, 12)).is_err());
    assert!(assemble_atlas(&sprites, &fine, blank(16, 10)).is_ok());
}
