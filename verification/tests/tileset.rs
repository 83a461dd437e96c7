use bonsai::pixels::Image;
use bonsai::tileset::{slice_tiles, tile_grid, tile_key, TileGridSpec};

fn grid(w: u32, h: u32) -> TileGridSpec {
    TileGridSpec { tile_width: w, tile_height: h }
}

#[test]
fn tile_size_is_read_from_the_end_of_the_stem() {
    assert_eq!(tile_grid("tiles_16x16"), grid(16, 16));
    assert_eq!(tile_grid("dungeon_8x12"), grid(8, 12));
    assert_eq!(tile_grid("a_b_32x64"), grid(32, 64));
    assert_eq!(tile_grid("t_007x010"), grid(7, 10));
    assert_eq!(tile_grid("_1x1"), grid(1, 1));
    assert_eq!(tile_grid("t_4294967295x1"), grid(4294967295, 1));
}

#[test]
fn tile_size_falls_back_to_sixteen() {
    for stem in [
        "ground",
        "",
        "32x64",
        "t32x64",
        "t_x5",
        "t_5x",
        "t_5x5_",
        "t_0x5",
        "t_5x0",
        "t_5X5",
        "t_5x5px",
        "t_-5x5",
        "t_4294967296x1",
        "t_1x99999999999999999999",
        "t_5 x5",
        "x",
        "_x",
        "5x5",
    ] {
        assert_eq!(tile_grid(stem), grid(16, 16));
    }
}

#[test]
fn tile_keys_are_stem_underscore_number() {
    assert_eq!(tile_key("walls_4x2", 0), "walls_4x2_0");
    assert_eq!(tile_key("walls_4x2", 17), "walls_4x2_17");
    assert_eq!(tile_key("", 3), "_3");
}

fn numbered(width: u32, height: u32) -> Image {
    let mut data = Vec::new();
    for y in 0..height {
        for x in 0..width {
            data.extend_from_slice(&[x as u8, y as u8, 0, 255]);
        }
    }
    Image { width, height, data }
}

#[test]
fn exact_grid_yields_columns_times_rows_tiles() {
    let img = numbered(12, 6);
    let tiles = slice_tiles(&img, grid(4, 3));
    assert_eq!(tiles.len(), 6);
    for (i, tile) in tiles.iter().enumerate() {
        assert_eq!((tile.width, tile.height), (4, 3));
        let col = (i % 3) as u8;
        let row = (i / 3) as u8;
        for y in 0..3u8 {
            for x in 0..4u8 {
                let at = ((y as usize) * 4 + x as usize) * 4;
                assert_eq!(tile.data[at], col * 4 + x);
                assert_eq!(tile.data[at + 1], row * 3 + y);
            }
        }
    }
}

#[test]
fn partial_tiles_are_dropped() {
    let img = numbered(10, 7);
    assert_eq!(slice_tiles(&img, grid(4, 3)).len(), 4);
    assert_eq!(slice_tiles(&img, grid(11, 3)).len(), 0);
    assert_eq!(slice_tiles(&img, grid(10, 7)).len(), 1);
    assert_eq!(slice_tiles(&img, grid(1, 1)).len(), 70);
    assert_eq!(slice_tiles(&img, grid(u32::MAX, 1)).len(), 0);
}
