use floaty::assets::{build_custom, decode_png};
use floaty::import::{has_visible, import_file, needs_scaling, sprite_size, ImportError};
use floaty::single::Single;

#[test]
fn pictures_that_fit_keep_their_size() {
    assert!(!needs_scaling(256, 128));
    assert!(needs_scaling(257, 1));
    assert!(needs_scaling(1, 129));
    assert_eq!(sprite_size(256, 128, (9, 9)), Ok((256, 128)));
    assert_eq!(sprite_size(1, 1, (9, 9)), Ok((1, 1)));
}

#[test]
fn larger_pictures_take_the_scaled_size() {
    assert_eq!(sprite_size(512, 100, (256, 50)), Ok((256, 50)));
    assert_eq!(sprite_size(100_000, 1, (256, 0)), Ok((256, 1)));
    assert_eq!(sprite_size(1, 100_000, (0, 128)), Ok((1, 128)));
    // Whatever the scaled size is, the sprite fits and nothing is enlarged.
    assert_eq!(sprite_size(300, 40, (900, 900)), Ok((256, 40)));
    assert_eq!(sprite_size(30, 400, (900, 900)), Ok((30, 128)));
}

#[test]
fn empty_pictures_are_refused() {
    assert_eq!(sprite_size(0, 5, (1, 1)), Err(ImportError::Empty));
    assert_eq!(sprite_size(5, 0, (1, 1)), Err(ImportError::Empty));
}

#[test]
fn transparent_pictures_are_refused() {
    let faint = vec![255, 255, 255, 8, 1, 1, 1, 0];
    assert!(!has_visible(&faint));
    assert!(matches!(import_file(&faint, 2, 1, "p"), Err(ImportError::FullyTransparent)));
    assert!(has_visible(&vec![0, 0, 0, 9]));
    assert!(!has_visible(&vec![]));
    // A pixel that is cut short does not count.
    assert!(!has_visible(&vec![0, 0, 0, 0, 255, 255, 255]));
}

#[test]
fn pixels_must_match_the_size() {
    let pixels = vec![255; 8];
    assert!(matches!(import_file(&pixels, 1, 1, "p"), Err(ImportError::Encode)));
    assert!(matches!(import_file(&pixels, 0, 1, "p"), Err(ImportError::Encode)));
    assert!(matches!(import_file(&pixels, 2, 0, "p"), Err(ImportError::Encode)));
    assert!(import_file(&pixels, 2, 1, "p").is_ok());
}

#[test]
fn an_imported_picture_is_a_character() {
    let mut pixels = Vec::new();
    for i in 0..6u8 {
        pixels.extend_from_slice(&[i, 10 * i, 200 - i, 255 - i]);
    }
    let (file, sprite) = import_file(&pixels, 3, 2, "dir/custom_sprite.png").ok().unwrap();
    assert_eq!(sprite.path, "dir/custom_sprite.png");
    assert_eq!((sprite.frame_width, sprite.frame_height), (3, 2));
    assert_eq!(sprite.fps, Single { bits: 1.0f32.to_bits() });
    assert_eq!((sprite.mode.as_str(), sprite.facing.as_str()), ("floater", "right"));

    let sheet = decode_png(&file).ok().unwrap();
    assert_eq!((sheet.width, sheet.height), (3, 2));
    assert_eq!(sheet.data, pixels);
    let atlas = build_custom(&sprite, &sheet).ok().unwrap();
    assert_eq!(atlas.frames.len(), 1);
    assert_eq!((atlas.frame_w, atlas.frame_h), (3, 2));
}

#[test]
fn the_largest_import_reads_back() {
    let mut pixels = Vec::new();
    for i in 0..256 * 128u32 {
        pixels.extend_from_slice(&[i as u8, (i >> 8) as u8, 77, 255]);
    }
    let (file, _) = import_file(&pixels, 256, 128, "p").ok().unwrap();
    assert_eq!(decode_png(&file).ok().unwrap().data, pixels);
}
