use bonsai::atlas::Rect;
use bonsai::pixels::Image;
use bonsai::sources::{pack_atlas, SourceImage};

fn solid(width: u32, height: u32, seed: u8) -> Image {
    let mut data = Vec::new();
    for y in 0..height {
        for x in 0..width {
            data.push((x % 251) as u8);
            data.push((y % 251) as u8);
            data.push(seed);
            data.push(255);
        }
    }
    Image { width, height, data }
}

fn pixel(data: &[u8], width: u32, x: u32, y: u32) -> [u8; 4] {
    let i = ((y * width + x) * 4) as usize;
    [data[i], data[i + 1], data[i + 2], data[i + 3]]
}

#[test]
fn hero_sprite_is_packed_with_extruded_size() {
    let sources = vec![SourceImage { path: "hero.png".to_string(), image: solid(32, 32, 7) }];
    let atlas = pack_atlas(&sources).expect("packing one small sprite succeeds");
    assert_eq!(atlas.sprites.len(), 1);
    let sprite = &atlas.sprites[0];
    assert_eq!(sprite.key, "hero");
    assert_eq!(sprite.source_size, (32, 32));
    assert_eq!((sprite.rect.w, sprite.rect.h), (34, 34));
    assert!(sprite.extruded);
    assert!(atlas.width <= 2048 && atlas.height <= 2048);
    assert_eq!(atlas.pixels.len(), (atlas.width * atlas.height * 4) as usize);
    assert_eq!(sprite.rect, Rect { x: 2, y: 2, w: 34, h: 34 });
    assert_eq!((atlas.width, atlas.height), (38, 38));
}

#[test]
fn packed_sprite_is_flipped_and_extruded_in_the_atlas() {
    let image = solid(4, 3, 9);
    let sources = vec![SourceImage { path: "a.png".to_string(), image: solid(4, 3, 9) }];
    let atlas = pack_atlas(&sources).unwrap();
    let r = atlas.sprites[0].rect;
    // interior pixel (x, y) of the stored image is source pixel (x, h - 1 - y)
    for y in 0..3u32 {
        for x in 0..4u32 {
            let got = pixel(&atlas.pixels, atlas.width, r.x + 1 + x, r.y + 1 + y);
            let want = pixel(&image.data, 4, x, 2 - y);
            assert_eq!(got, want);
        }
    }
    // corners repeat the nearest corner of the flipped image
    assert_eq!(pixel(&atlas.pixels, atlas.width, r.x, r.y), pixel(&image.data, 4, 0, 2));
    assert_eq!(
        pixel(&atlas.pixels, atlas.width, r.x + 5, r.y + 4),
        pixel(&image.data, 4, 3, 0)
    );
    // outside every frame the atlas is transparent black
    assert_eq!(pixel(&atlas.pixels, atlas.width, 0, 0), [0, 0, 0, 0]);
}

fn rects_disjoint(a: &Rect, b: &Rect) -> bool {
    a.x + a.w <= b.x || b.x + b.w <= a.x || a.y + a.h <= b.y || b.y + b.h <= a.y
}

#[test]
fn empty_input_yields_empty_atlas() {
    let sources: Vec<SourceImage> = Vec::new();
    let atlas = pack_atlas(&sources).expect("an empty directory is no error");
    assert_eq!((atlas.width, atlas.height), (0, 0));
    assert!(atlas.pixels.is_empty());
    assert!(atlas.sprites.is_empty());
}

#[test]
fn tileset_is_sliced_row_major_with_indexed_keys() {
    // 3 columns by 2 rows of 4x2 tiles
    let image = solid(12, 4, 1);
    let sources =
        vec![SourceImage { path: "tilesets/walls_4x2.png".to_string(), image: solid(12, 4, 1) }];
    let atlas = pack_atlas(&sources).unwrap();
    assert_eq!(atlas.sprites.len(), 6);
    for (i, sprite) in atlas.sprites.iter().enumerate() {
        assert_eq!(sprite.key, format!("walls_4x2_{}", i));
        assert_eq!(sprite.source_size, (4, 2));
        assert_eq!((sprite.rect.w, sprite.rect.h), (6, 4));
        let col = (i % 3) as u32;
        let row = (i / 3) as u32;
        // interior (x, y) of the stored tile is tile pixel (x, 1 - y)
        for y in 0..2u32 {
            for x in 0..4u32 {
                let got =
                    pixel(&atlas.pixels, atlas.width, sprite.rect.x + 1 + x, sprite.rect.y + 1 + y);
                let want = pixel(&image.data, 12, col * 4 + x, row * 2 + (1 - y));
                assert_eq!(got, want);
            }
        }
    }
}

#[test]
fn tileset_without_size_in_its_name_uses_sixteen_pixel_tiles() {
    let sources =
        vec![SourceImage { path: "tilesets/ground.png".to_string(), image: solid(32, 48, 3) }];
    let atlas = pack_atlas(&sources).unwrap();
    assert_eq!(atlas.sprites.len(), 6);
    assert_eq!(atlas.sprites[5].key, "ground_5");
    assert_eq!(atlas.sprites[0].source_size, (16, 16));
}

#[test]
fn tileset_drops_partial_trailing_tiles() {
    let sources =
        vec![SourceImage { path: "tilesets/odd_16x16.png".to_string(), image: solid(40, 20, 3) }];
    let atlas = pack_atlas(&sources).unwrap();
    assert_eq!(atlas.sprites.len(), 2);
    assert_eq!(atlas.sprites[0].key, "odd_16x16_0");
    assert_eq!(atlas.sprites[1].key, "odd_16x16_1");
}

#[test]
fn tileset_smaller_than_one_tile_yields_no_sprite() {
    let sources =
        vec![SourceImage { path: "tilesets/tiny_16x16.png".to_string(), image: solid(8, 8, 3) }];
    let atlas = pack_atlas(&sources).unwrap();
    assert!(atlas.sprites.is_empty());
    assert_eq!((atlas.width, atlas.height), (0, 0));
}

#[test]
fn file_outside_tilesets_is_one_sprite_whatever_its_name() {
    let sources =
        vec![SourceImage { path: "props/crate_16x16.png".to_string(), image: solid(32, 32, 3) }];
    let atlas = pack_atlas(&sources).unwrap();
    assert_eq!(atlas.sprites.len(), 1);
    assert_eq!(atlas.sprites[0].key, "crate_16x16");
    assert_eq!(atlas.sprites[0].source_size, (32, 32));
}

fn many_sources() -> Vec<SourceImage> {
    let mut sources = Vec::new();
    for i in 0..40u32 {
        sources.push(SourceImage {
            path: format!("sprites/s{:02}.png", i),
            image: solid(5 + (i * 7) % 60, 3 + (i * 11) % 45, i as u8),
        });
    }
    sources.push(SourceImage { path: "tilesets/t_8x8.png".to_string(), image: solid(64, 32, 200) });
    sources
}

#[test]
fn sprites_do_not_overlap_and_lie_inside_the_atlas() {
    let atlas = pack_atlas(&many_sources()).unwrap();
    assert_eq!(atlas.sprites.len(), 40 + 32);
    assert!(atlas.width <= 2048 && atlas.height <= 2048);
    for (i, a) in atlas.sprites.iter().enumerate() {
        assert!(a.rect.x + a.rect.w <= atlas.width);
        assert!(a.rect.y + a.rect.h <= atlas.height);
        // the border stays free on all four sides
        assert!(a.rect.x >= 2 && a.rect.y >= 2);
        assert!(a.rect.x + a.rect.w + 2 <= atlas.width);
        assert!(a.rect.y + a.rect.h + 2 <= atlas.height);
        for b in atlas.sprites.iter().skip(i + 1) {
            assert!(rects_disjoint(&a.rect, &b.rect));
            assert!(a.rect.is_apart(&b.rect, 2));
            assert_ne!(a.key, b.key);
        }
    }
}

#[test]
fn packing_twice_gives_identical_atlases() {
    let first = pack_atlas(&many_sources()).unwrap();
    let second = pack_atlas(&many_sources()).unwrap();
    assert_eq!((first.width, first.height), (second.width, second.height));
    assert_eq!(first.pixels, second.pixels);
    assert_eq!(first.sprites.len(), second.sprites.len());
    for (a, b) in first.sprites.iter().zip(second.sprites.iter()) {
        assert_eq!(a.key, b.key);
        assert_eq!(a.rect, b.rect);
        assert_eq!(a.source_size, b.source_size);
    }
}

#[test]
fn packing_order_is_by_path_not_by_input_order() {
    let forward = pack_atlas(&many_sources()).unwrap();
    let mut reversed_sources = many_sources();
    reversed_sources.reverse();
    let reversed = pack_atlas(&reversed_sources).unwrap();
    assert_eq!(forward.pixels, reversed.pixels);
    let keys: Vec<&String> = forward.sprites.iter().map(|s| &s.key).collect();
    let keys_reversed: Vec<&String> = reversed.sprites.iter().map(|s| &s.key).collect();
    assert_eq!(keys, keys_reversed);
    assert_eq!(forward.sprites[0].key, "s00");
    assert_eq!(forward.sprites[40].key, "t_8x8_0");
}

#[test]
fn sprite_too_large_for_the_atlas_is_a_build_error() {
    let sources = vec![
        SourceImage { path: "ok.png".to_string(), image: solid(8, 8, 1) },
        SourceImage { path: "wide.png".to_string(), image: solid(3000, 4, 1) },
    ];
    let err = pack_atlas(&sources).unwrap_err();
    assert!(err.is_build());
    assert_eq!(err.message(), "Build failed: failed to pack sprite 'wide'. Atlas full?");
}

#[test]
fn atlas_that_runs_full_is_a_build_error() {
    let mut sources = Vec::new();
    for i in 0..20u32 {
        sources.push(SourceImage { path: format!("big{:02}.png", i), image: solid(1000, 1000, 1) });
    }
    let err = pack_atlas(&sources).unwrap_err();
    assert!(err.is_build());
    assert!(err.message().contains("Atlas full?"));
}

#[test]
fn image_with_wrong_buffer_size_is_a_validation_error() {
    let mut image = solid(4, 4, 1);
    image.data.pop();
    let sources = vec![SourceImage { path: "broken.png".to_string(), image }];
    let err = pack_atlas(&sources).unwrap_err();
    assert!(matches!(err, bonsai::error::CustomError::ValidationError(_)));
    assert_eq!(err.message(), "Validation error: invalid image 'broken.png'");
}

#[test]
fn empty_image_is_a_validation_error() {
    let sources = vec![SourceImage {
        path: "none.png".to_string(),
        image: Image { width: 0, height: 0, data: Vec::new() },
    }];
    let err = pack_atlas(&sources).unwrap_err();
    assert_eq!(err.message(), "Validation error: invalid image 'none.png'");
}

#[test]
fn of_two_files_with_one_stem_the_later_path_is_kept() {
    let sources = vec![
        SourceImage { path: "b/hero.png".to_string(), image: solid(10, 10, 2) },
        SourceImage { path: "a/hero.png".to_string(), image: solid(6, 6, 1) },
    ];
    let atlas = pack_atlas(&sources).unwrap();
    assert_eq!(atlas.sprites.len(), 1);
    assert_eq!(atlas.sprites[0].key, "hero");
    assert_eq!(atlas.sprites[0].source_size, (10, 10));
}

#[test]
fn sprite_can_be_found_by_key() {
    let atlas = pack_atlas(&many_sources()).unwrap();
    let i = atlas.find("s07").expect("the sprite is in the table");
    assert_eq!(atlas.sprites[i].key, "s07");
    assert_eq!(atlas.find("missing"), None);
}

#[test]
fn atlas_filled_to_its_right_edge_stays_within_the_limits() {
    let mut sources = Vec::new();
    for i in 0..70u32 {
        sources.push(SourceImage { path: format!("s{:02}.png", i), image: solid(60, 60, i as u8) });
    }
    let atlas = pack_atlas(&sources).unwrap();
    assert_eq!(atlas.sprites.len(), 70);
    assert!(atlas.width <= 2048 && atlas.height <= 2048);
    assert!(atlas.width > 1900);
    for sprite in &atlas.sprites {
        assert!(sprite.rect.x >= 2 && sprite.rect.y >= 2);
        assert!(sprite.rect.x + sprite.rect.w + 2 <= atlas.width);
    }
}

#[test]
fn widest_sprite_that_fits_is_2042_pixels_wide() {
    let fits = vec![SourceImage { path: "w.png".to_string(), image: solid(2042, 1, 0) }];
    let atlas = pack_atlas(&fits).unwrap();
    assert_eq!(atlas.sprites[0].rect, Rect { x: 2, y: 2, w: 2044, h: 3 });
    assert_eq!((atlas.width, atlas.height), (2048, 7));
    let too_wide = vec![SourceImage { path: "w.png".to_string(), image: solid(2043, 1, 0) }];
    assert!(pack_atlas(&too_wide).unwrap_err().is_build());
}

#[test]
fn first_invalid_image_in_path_order_is_named() {
    let broken = |path: &str| SourceImage {
        path: path.to_string(),
        image: Image { width: 2, height: 2, data: vec![0u8; 3] },
    };
    let sources = vec![
        broken("z.png"),
        SourceImage { path: "m.png".to_string(), image: solid(2, 2, 0) },
        broken("b.png"),
    ];
    let err = pack_atlas(&sources).unwrap_err();
    assert_eq!(err.message(), "Validation error: invalid image 'b.png'");
}

#[test]
fn oversized_image_is_a_build_error() {
    let sources = vec![SourceImage {
        path: "huge.png".to_string(),
        image: Image { width: 16385, height: 1, data: vec![0u8; 16385 * 4] },
    }];
    let err = pack_atlas(&sources).unwrap_err();
    assert!(err.is_build());
    assert_eq!(err.message(), "Build failed: failed to pack sprite 'huge'. Atlas full?");
}

#[test]
fn sprite_one_pixel_wider_than_the_atlas_is_a_build_error() {
    let sources = vec![SourceImage { path: "w.png".to_string(), image: solid(2049, 1, 0) }];
    let err = pack_atlas(&sources).unwrap_err();
    assert!(err.is_build());
    assert_eq!(err.message(), "Build failed: failed to pack sprite 'w'. Atlas full?");
}
