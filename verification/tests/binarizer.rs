use christina::bitmap::{binarize, crop, preprocess, Image};
use christina::color::{MyLevel, Pixel};

fn px(r: u8, g: u8, b: u8, a: u8) -> Pixel {
    Pixel { r, g, b, a }
}

fn black() -> Pixel {
    Pixel { r: 0, g: 0, b: 0, a: 1 }
}

fn white() -> Pixel {
    Pixel { r: 255, g: 255, b: 255, a: 1 }
}

#[test]
fn index_of_dark_pixel_is_zero() {
    let level = MyLevel;
    assert_eq!(level.index_of(&px(0, 0, 0, 255)), 0);
    assert_eq!(level.index_of(&px(100, 100, 100, 255)), 0);
}

#[test]
fn index_of_bright_pixel_is_one() {
    let level = MyLevel;
    assert_eq!(level.index_of(&px(255, 255, 255, 255)), 1);
    assert_eq!(level.index_of(&px(200, 200, 200, 0)), 1);
}

#[test]
fn index_of_threshold_boundary() {
    let level = MyLevel;
    // a uniform gray has luminance equal to its channel value
    assert_eq!(level.index_of(&px(195, 195, 195, 255)), 0);
    assert_eq!(level.index_of(&px(196, 196, 196, 255)), 1);
}

#[test]
fn index_of_uses_luminance_weights() {
    let level = MyLevel;
    // (299*255 + 587*0 + 114*0) / 1000 = 76: dark despite a full red channel
    assert_eq!(level.index_of(&px(255, 0, 0, 255)), 0);
    // (299*0 + 587*255 + 114*255) / 1000 = 178: still dark
    assert_eq!(level.index_of(&px(0, 255, 255, 255)), 0);
    // (299*255 + 587*255 + 114*0) / 1000 = 225: bright
    assert_eq!(level.index_of(&px(255, 255, 0, 255)), 1);
}

#[test]
fn lookup_maps_indices_to_palette() {
    let level = MyLevel;
    assert_eq!(level.lookup(0), Some(black()));
    assert_eq!(level.lookup(1), Some(white()));
}

#[test]
fn lookup_fails_outside_palette() {
    let level = MyLevel;
    assert_eq!(level.lookup(2), None);
    assert_eq!(level.lookup(17), None);
    assert_eq!(level.lookup(usize::MAX), None);
}

#[test]
fn lookup_of_index_is_black_or_white() {
    let level = MyLevel;
    let samples = [
        px(0, 0, 0, 0),
        px(12, 240, 99, 7),
        px(195, 195, 195, 255),
        px(196, 196, 196, 1),
        px(255, 255, 255, 255),
    ];
    for p in samples {
        let c = level.lookup(level.index_of(&p)).expect("palette index must resolve");
        assert!(c == black() || c == white());
    }
}

#[test]
fn map_color_writes_quantized_red_channel() {
    let level = MyLevel;
    let mut p = px(200, 200, 200, 42);
    level.map_color(&mut p);
    assert_eq!(p, px(255, 200, 200, 42));
    let mut q = px(10, 20, 30, 9);
    level.map_color(&mut q);
    assert_eq!(q, px(0, 20, 30, 9));
}

#[test]
fn binarize_two_by_two_splits_along_threshold() {
    // two pixels above the threshold, two below
    let img = Image {
        width: 2,
        height: 2,
        pixels: vec![
            px(255, 255, 255, 255),
            px(10, 10, 10, 255),
            px(0, 0, 0, 255),
            px(220, 220, 220, 255),
        ],
    };
    let out = binarize(&img);
    assert_eq!(out.width, 2);
    assert_eq!(out.height, 2);
    assert_eq!(out.pixels, vec![white(), black(), black(), white()]);
}

#[test]
fn crop_takes_the_requested_rectangle() {
    // 3 wide, 2 tall; values encode the coordinates
    let img = Image {
        width: 3,
        height: 2,
        pixels: vec![
            px(0, 0, 0, 255),
            px(1, 0, 0, 255),
            px(2, 0, 0, 255),
            px(0, 1, 0, 255),
            px(1, 1, 0, 255),
            px(2, 1, 0, 255),
        ],
    };
    let out = crop(&img, 1, 0, 2, 1);
    assert_eq!(out.width, 2);
    assert_eq!(out.height, 1);
    assert_eq!(out.pixels, vec![px(1, 0, 0, 255), px(2, 0, 0, 255)]);
}

#[test]
fn crop_clamps_to_the_image() {
    let img = Image {
        width: 3,
        height: 2,
        pixels: vec![
            px(0, 0, 0, 255),
            px(1, 0, 0, 255),
            px(2, 0, 0, 255),
            px(0, 1, 0, 255),
            px(1, 1, 0, 255),
            px(2, 1, 0, 255),
        ],
    };
    let out = crop(&img, 2, 1, 10, 10);
    assert_eq!(out.width, 1);
    assert_eq!(out.height, 1);
    assert_eq!(out.pixels, vec![px(2, 1, 0, 255)]);
    let empty = crop(&img, 5, 5, 2, 2);
    assert_eq!(empty.width, 0);
    assert_eq!(empty.height, 0);
    assert_eq!(empty.pixels, Vec::new());
}

#[test]
fn preprocess_crops_then_binarizes() {
    let img = Image {
        width: 2,
        height: 2,
        pixels: vec![
            px(255, 255, 255, 255),
            px(10, 10, 10, 255),
            px(0, 0, 0, 255),
            px(220, 220, 220, 255),
        ],
    };
    let out = preprocess(&img, 1, 0, 1, 2);
    assert_eq!(out.width, 1);
    assert_eq!(out.height, 2);
    assert_eq!(out.pixels, vec![black(), white()]);
}

#[test]
fn image_new_fills() {
    let img = Image::new(2, 3, px(7, 8, 9, 10));
    assert_eq!(img.pixels.len(), 6);
    assert!(img.pixels.iter().all(|p| *p == px(7, 8, 9, 10)));
    assert_eq!(img.get(1, 2), px(7, 8, 9, 10));
}
