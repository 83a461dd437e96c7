use bonsai::pixels::{byte_count, crop, extrude, flip_vertical, Image};

fn numbered(width: u32, height: u32) -> Image {
    let mut data = Vec::new();
    for y in 0..height {
        for x in 0..width {
            data.push(x as u8);
            data.push(y as u8);
            data.push((10 * y + x) as u8);
            data.push(255);
        }
    }
    Image { width, height, data }
}

fn px(img: &Image, x: u32, y: u32) -> [u8; 4] {
    let i = ((y * img.width + x) * 4) as usize;
    [img.data[i], img.data[i + 1], img.data[i + 2], img.data[i + 3]]
}

#[test]
fn from_raw_checks_the_buffer_length() {
    assert!(Image::from_raw(2, 3, vec![0u8; 24]).is_some());
    assert!(Image::from_raw(2, 3, vec![0u8; 23]).is_none());
    assert!(Image::from_raw(2, 3, vec![0u8; 25]).is_none());
    assert!(Image::from_raw(0, 7, Vec::new()).is_some());
    assert!(numbered(3, 2).is_well_formed());
}

#[test]
fn byte_count_is_four_bytes_per_pixel() {
    assert_eq!(byte_count(3, 5), 60);
    assert_eq!(byte_count(0, 5), 0);
    assert_eq!(byte_count(u32::MAX, u32::MAX), 4 * (u32::MAX as u128) * (u32::MAX as u128));
}

#[test]
fn flip_vertical_exchanges_rows() {
    let img = numbered(3, 4);
    let flipped = flip_vertical(&img);
    assert_eq!((flipped.width, flipped.height), (3, 4));
    for y in 0..4 {
        for x in 0..3 {
            assert_eq!(px(&flipped, x, y), px(&img, x, 3 - y));
        }
    }
    assert_ne!(flipped.data, img.data);
}

#[test]
fn flip_vertical_of_one_row_changes_nothing() {
    let img = numbered(5, 1);
    assert_eq!(flip_vertical(&img).data, img.data);
}

#[test]
fn crop_takes_the_window() {
    let img = numbered(6, 5);
    let window = crop(&img, 2, 1, 3, 2);
    assert_eq!((window.width, window.height), (3, 2));
    assert_eq!(window.data.len(), 24);
    for y in 0..2 {
        for x in 0..3 {
            assert_eq!(px(&window, x, y), px(&img, 2 + x, 1 + y));
        }
    }
    let nothing = crop(&img, 6, 5, 0, 0);
    assert!(nothing.data.is_empty());
}

#[test]
fn extrude_adds_a_border_of_repeated_edge_pixels() {
    let img = numbered(3, 2);
    let out = extrude(&img);
    assert_eq!((out.width, out.height), (5, 4));
    assert_eq!(out.data.len(), 5 * 4 * 4);
    // interior
    for y in 0..2 {
        for x in 0..3 {
            assert_eq!(px(&out, x + 1, y + 1), px(&img, x, y));
        }
    }
    // left and right columns
    for y in 0..2 {
        assert_eq!(px(&out, 0, y + 1), px(&img, 0, y));
        assert_eq!(px(&out, 4, y + 1), px(&img, 2, y));
    }
    // top and bottom rows
    for x in 0..3 {
        assert_eq!(px(&out, x + 1, 0), px(&img, x, 0));
        assert_eq!(px(&out, x + 1, 3), px(&img, x, 1));
    }
    // corners
    assert_eq!(px(&out, 0, 0), px(&img, 0, 0));
    assert_eq!(px(&out, 4, 0), px(&img, 2, 0));
    assert_eq!(px(&out, 0, 3), px(&img, 0, 1));
    assert_eq!(px(&out, 4, 3), px(&img, 2, 1));
}

#[test]
fn extrude_of_a_single_pixel_repeats_it_nine_times() {
    let img = Image { width: 1, height: 1, data: vec![9, 8, 7, 6] };
    let out = extrude(&img);
    assert_eq!((out.width, out.height), (3, 3));
    for y in 0..3 {
        for x in 0..3 {
            assert_eq!(px(&out, x, y), [9, 8, 7, 6]);
        }
    }
}
