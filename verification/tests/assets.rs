use floaty::assets::{
    build_atlas, build_custom, can_build_custom, decode_png, drawings, expand, find_character, roster,
    Art, AssetError, Drawing,
};
use floaty::atlas::{Facing, PackError, WaterMode};
use floaty::config::{Config, CustomSprite};
use floaty::png_file::{PngFault, RawFrame};
use floaty::single::Single;

fn s(v: f32) -> Single {
    Single { bits: v.to_bits() }
}

fn png_bytes(width: u32, height: u32, color: png::ColorType, data: &[u8]) -> Vec<u8> {
    png_of_depth(width, height, color, png::BitDepth::Eight, data)
}

fn png_of_depth(
    width: u32,
    height: u32,
    color: png::ColorType,
    depth: png::BitDepth,
    data: &[u8],
) -> Vec<u8> {
    let mut file = Vec::new();
    let mut encoder = png::Encoder::new(&mut file, width, height);
    encoder.set_color(color);
    encoder.set_depth(depth);
    if color == png::ColorType::Indexed {
        encoder.set_palette(vec![1, 2, 3, 4, 5, 6]);
    }
    let mut writer = encoder.write_header().unwrap();
    writer.write_image_data(data).unwrap();
    drop(writer);
    file
}

fn rgba(width: u32, height: u32, data: &[u8]) -> Vec<u8> {
    png_bytes(width, height, png::ColorType::Rgba, data)
}

fn art(files: &[Vec<u8>; 15]) -> Art<'_> {
    Art {
        duck_float_1: &files[0],
        duck_float_2: &files[1],
        capy_1: &files[2],
        capy_2: &files[3],
        capy_3: &files[4],
        capy_4: &files[5],
        coconut_1: &files[6],
        fish_1: &files[7],
        fish_2: &files[8],
        fish_3: &files[9],
        fish_4: &files[10],
        boat_1: &files[11],
        boat_2: &files[12],
        boat_3: &files[13],
        boat_4: &files[14],
    }
}

/// Fifteen pictures of one opaque pixel, of red 10, 20, 30 and so on.
fn files() -> [Vec<u8>; 15] {
    std::array::from_fn(|i| rgba(1, 1, &[10 * (i as u8 + 1), 0, 0, 255]))
}

fn settings(character: &str) -> Config {
    let mut c = Config::default();
    c.character = character.to_string();
    c
}

fn custom(frame_width: u32, frame_height: u32) -> CustomSprite {
    CustomSprite {
        path: "x.png".to_string(),
        frame_width,
        frame_height,
        fps: s(4.0),
        mode: "floater".to_string(),
        facing: "right".to_string(),
    }
}

#[test]
fn png_files_of_every_supported_color_are_read() {
    let p = decode_png(&rgba(2, 1, &[1, 2, 3, 4, 5, 6, 7, 8])).ok().unwrap();
    assert_eq!((p.width, p.height, p.data), (2, 1, vec![1, 2, 3, 4, 5, 6, 7, 8]));

    let p = decode_png(&png_bytes(2, 1, png::ColorType::Rgb, &[1, 2, 3, 4, 5, 6])).ok().unwrap();
    assert_eq!((p.width, p.height, p.data), (2, 1, vec![1, 2, 3, 255, 4, 5, 6, 255]));

    let file = png_bytes(1, 2, png::ColorType::GrayscaleAlpha, &[9, 8, 7, 6]);
    let p = decode_png(&file).ok().unwrap();
    assert_eq!((p.width, p.height, p.data), (1, 2, vec![9, 9, 9, 8, 7, 7, 7, 6]));

    let p = decode_png(&png_bytes(2, 1, png::ColorType::Grayscale, &[5, 6])).ok().unwrap();
    assert_eq!((p.width, p.height, p.data), (2, 1, vec![5, 5, 5, 255, 6, 6, 6, 255]));
}

#[test]
fn png_files_with_a_palette_are_refused() {
    let file = png_bytes(2, 1, png::ColorType::Indexed, &[0, 1]);
    assert_eq!(decode_png(&file).err(), Some(AssetError::PngColor(3)));
}

#[test]
fn files_that_are_no_png_are_refused() {
    assert_eq!(decode_png(b"").err(), Some(AssetError::Png(PngFault::Header)));
    assert_eq!(decode_png(b"GIF89a").err(), Some(AssetError::Png(PngFault::Header)));
    let whole = rgba(8, 8, &[200; 256]);
    let at = whole.windows(4).position(|w| w == b"IDAT").unwrap();
    assert_eq!(decode_png(&whole[..at + 6]).err(), Some(AssetError::Png(PngFault::Frame)));
}

#[test]
fn raw_frames_are_cut_to_their_size() {
    let raw = RawFrame { width: 1, height: 1, color: 0, depth: 8, size: 1, data: vec![7, 8, 9] };
    let p = expand(raw).ok().unwrap();
    assert_eq!(p.data, vec![7, 7, 7, 255]);
    let raw =
        RawFrame { width: 1, height: 1, color: 6, depth: 8, size: 9, data: vec![1, 2, 3, 4] };
    assert_eq!(expand(raw).ok().unwrap().data, vec![1, 2, 3, 4]);
    let raw = RawFrame { width: 1, height: 1, color: 5, depth: 8, size: 1, data: vec![1] };
    assert_eq!(expand(raw).err(), Some(AssetError::PngColor(5)));
}

#[test]
fn the_roster_has_five_characters() {
    let all = roster();
    let ids: Vec<_> = all.iter().map(|c| c.id).collect();
    assert_eq!(ids, ["duck", "capybara", "fish", "coconut", "boat"]);
    let names: Vec<_> = all.iter().map(|c| c.name).collect();
    assert_eq!(names, ["Duck", "Capybara", "Clownfish", "Coconut", "Sailboat"]);
    let looks: Vec<_> = all.iter().map(|c| c.look).collect();
    let numbers = [
        (1.0, 0.85, 0.035),
        (2.0, 0.65, 0.03),
        (6.0, 1.0, 0.0),
        (1.0, 0.72, 0.12),
        (5.0, 0.88, 0.05),
    ];
    for (look, (fps, waterline, rock)) in looks.iter().zip(numbers) {
        assert_eq!((look.fps, look.waterline, look.rock), (s(fps), s(waterline), s(rock)));
    }
    for (i, look) in looks.iter().enumerate() {
        let fish = i == 2;
        assert_eq!(look.mode == WaterMode::Swimmer, fish);
        assert_eq!(look.facing == Facing::Left, fish);
    }
}

#[test]
fn characters_are_found_by_their_id() {
    assert_eq!(find_character("duck"), Some(0));
    assert_eq!(find_character("boat"), Some(4));
    assert_eq!(find_character("Duck"), None);
    assert_eq!(find_character("rotate"), None);
}

#[test]
fn the_duck_holds_its_head_up() {
    let mut expected = vec![Drawing::DuckFloat1; 7];
    expected.extend([Drawing::DuckFloat2; 2]);
    assert_eq!(drawings(0), expected);
    assert_eq!(drawings(1), [Drawing::Capy1, Drawing::Capy2, Drawing::Capy3, Drawing::Capy4]);
    assert_eq!(drawings(2), [Drawing::Fish1, Drawing::Fish2, Drawing::Fish3, Drawing::Fish4]);
    assert_eq!(drawings(3), [Drawing::Coconut1]);
    assert_eq!(drawings(4), [Drawing::Boat1, Drawing::Boat2, Drawing::Boat3, Drawing::Boat4]);
}

#[test]
fn built_in_characters_are_packed_from_their_drawings() {
    let files = files();
    let first_reds = |character: &str| -> Vec<u8> {
        let atlas = build_atlas(&settings(character), &art(&files), None).unwrap().ok().unwrap();
        atlas
            .frames
            .iter()
            .map(|f| atlas.pixels[((f.y * atlas.width + f.x) * 4) as usize])
            .collect()
    };
    assert_eq!(first_reds("duck"), [10, 10, 10, 10, 10, 10, 10, 20, 20]);
    assert_eq!(first_reds("capybara"), [30, 40, 50, 60]);
    assert_eq!(first_reds("coconut"), [70]);
    assert_eq!(first_reds("fish"), [80, 90, 100, 110]);
    assert_eq!(first_reds("boat"), [120, 130, 140, 150]);
}

#[test]
fn built_in_characters_keep_their_look() {
    let files = files();
    let atlas = build_atlas(&settings("fish"), &art(&files), None).unwrap().ok().unwrap();
    assert_eq!(atlas.mode, WaterMode::Swimmer);
    assert_eq!(atlas.facing, Facing::Left);
    assert_eq!((atlas.fps, atlas.waterline, atlas.rock), (s(6.0), s(1.0), s(0.0)));
}

#[test]
fn unknown_characters_are_refused() {
    let files = files();
    for name in ["dog", "", "rotate", "DUCK"] {
        let built = build_atlas(&settings(name), &art(&files), None).unwrap();
        assert_eq!(built.err(), Some(AssetError::UnknownCharacter));
    }
}

#[test]
fn broken_drawings_are_reported() {
    let mut files = files();
    files[4] = b"nothing".to_vec();
    let built = build_atlas(&settings("capybara"), &art(&files), None).unwrap();
    assert_eq!(built.err(), Some(AssetError::Png(PngFault::Header)));
    files[6] = rgba(1, 1, &[1, 1, 1, 0]);
    let built = build_atlas(&settings("coconut"), &art(&files), None).unwrap();
    assert_eq!(built.err(), Some(AssetError::Pack(PackError::FullyTransparent)));
}

#[test]
fn drawings_of_unequal_size_may_be_impossible_to_pack() {
    let mut files = files();
    let mut large = vec![0; 64];
    large[60..].copy_from_slice(&[1, 1, 1, 255]);
    files[3] = rgba(4, 4, &large);
    assert!(build_atlas(&settings("capybara"), &art(&files), None).is_none());
}

#[test]
fn custom_characters_need_an_entry_and_a_file() {
    let files = files();
    let mut c = settings("custom");
    let built = build_atlas(&c, &art(&files), Some(&files[0])).unwrap();
    assert_eq!(built.err(), Some(AssetError::NotConfigured));
    c.custom_sprite = Some(custom(1, 1));
    let built = build_atlas(&c, &art(&files), None).unwrap();
    assert_eq!(built.err(), Some(AssetError::Unreadable));
    let built = build_atlas(&c, &art(&files), Some(b"")).unwrap();
    assert_eq!(built.err(), Some(AssetError::Png(PngFault::Header)));
    let built = build_atlas(&c, &art(&files), Some(&files[0])).unwrap();
    assert!(built.is_ok());
}

#[test]
fn custom_sheets_are_cut_into_frames() {
    // Three frames of 2x1 and a column that is left over.
    let mut data = Vec::new();
    for i in 1..=7u8 {
        data.extend_from_slice(&[i, 0, 0, 255]);
    }
    let sheet = decode_png(&rgba(7, 1, &data)).ok().unwrap();
    let c = custom(2, 1);
    assert!(can_build_custom(&c, &sheet));
    let atlas = build_custom(&c, &sheet).ok().unwrap();
    assert_eq!(atlas.frames.len(), 3);
    assert_eq!((atlas.frame_w, atlas.frame_h), (2, 1));
    let red = |x: u32| atlas.pixels[((atlas.width + x) * 4) as usize];
    assert_eq!([red(1), red(2), red(4), red(5), red(7), red(8)], [1, 2, 3, 4, 5, 6]);
}

#[test]
fn custom_frames_must_fit_their_sheet() {
    let sheet = decode_png(&rgba(2, 2, &[255; 16])).ok().unwrap();
    for (w, h) in [(0, 1), (1, 0), (3, 1), (1, 3)] {
        let c = custom(w, h);
        assert!(can_build_custom(&c, &sheet));
        assert_eq!(
            build_custom(&c, &sheet).err(),
            Some(AssetError::FrameSize {
                frame_width: w,
                frame_height: h,
                sheet_width: 2,
                sheet_height: 2,
            })
        );
    }
    assert!(build_custom(&custom(2, 2), &sheet).is_ok());
}

#[test]
fn custom_looks_follow_the_entry() {
    let sheet = decode_png(&rgba(1, 1, &[255; 4])).ok().unwrap();
    let mut c = custom(1, 1);
    let atlas = build_custom(&c, &sheet).ok().unwrap();
    assert_eq!((atlas.mode, atlas.facing), (WaterMode::Floater, Facing::Right));
    assert_eq!((atlas.fps, atlas.waterline, atlas.rock), (s(4.0), s(0.72), s(0.12)));
    c.mode = "swimmer".to_string();
    c.facing = "left".to_string();
    c.fps = s(100.0);
    let atlas = build_custom(&c, &sheet).ok().unwrap();
    assert_eq!((atlas.mode, atlas.facing), (WaterMode::Swimmer, Facing::Left));
    assert_eq!((atlas.fps, atlas.waterline, atlas.rock), (s(30.0), s(1.0), s(0.0)));
    // Anything else floats, and faces right.
    c.mode = "Swimmer".to_string();
    c.facing = "up".to_string();
    c.fps = s(0.0);
    let atlas = build_custom(&c, &sheet).ok().unwrap();
    assert_eq!((atlas.mode, atlas.facing), (WaterMode::Floater, Facing::Right));
    assert_eq!(atlas.fps, s(0.5));
}

#[test]
fn sixteen_bits_are_cut_to_eight() {
    let data = [1, 99, 2, 99, 3, 99, 4, 99, 5, 0, 6, 0, 7, 0, 8, 0];
    let file = png_of_depth(2, 1, png::ColorType::Rgba, png::BitDepth::Sixteen, &data);
    let p = decode_png(&file).ok().unwrap();
    assert_eq!((p.width, p.height, p.data), (2, 1, vec![1, 2, 3, 4, 5, 6, 7, 8]));

    let data = [1, 99, 2, 99, 3, 99];
    let file = png_of_depth(1, 1, png::ColorType::Rgb, png::BitDepth::Sixteen, &data);
    assert_eq!(decode_png(&file).ok().unwrap().data, vec![1, 2, 3, 255]);

    let data = [9, 1, 8, 1];
    let file = png_of_depth(1, 1, png::ColorType::GrayscaleAlpha, png::BitDepth::Sixteen, &data);
    assert_eq!(decode_png(&file).ok().unwrap().data, vec![9, 9, 9, 8]);

    let data = [9, 1, 8, 1];
    let file = png_of_depth(1, 2, png::ColorType::Grayscale, png::BitDepth::Sixteen, &data);
    assert_eq!(decode_png(&file).ok().unwrap().data, vec![9, 9, 9, 255, 8, 8, 8, 255]);
}

#[test]
fn packed_gray_is_spread_over_a_byte() {
    let grays = |width: u32, height: u32, depth: png::BitDepth, data: &[u8]| -> Vec<u8> {
        let file = png_of_depth(width, height, png::ColorType::Grayscale, depth, data);
        let p = decode_png(&file).ok().unwrap();
        assert_eq!((p.width, p.height), (width, height));
        assert_eq!(p.data.len(), (width * height * 4) as usize);
        assert!(p.data.chunks(4).all(|c| c[0] == c[1] && c[1] == c[2] && c[3] == 255));
        p.data.chunks(4).map(|c| c[0]).collect()
    };
    // Rows start anew at a byte.
    assert_eq!(
        grays(3, 2, png::BitDepth::One, &[0b101_00000, 0b010_00000]),
        [255, 0, 255, 0, 255, 0]
    );
    assert_eq!(
        grays(9, 1, png::BitDepth::One, &[0b1000_0001, 0b1000_0000]),
        [255, 0, 0, 0, 0, 0, 0, 255, 255]
    );
    assert_eq!(grays(4, 1, png::BitDepth::Two, &[0b00_01_10_11]), [0, 85, 170, 255]);
    assert_eq!(grays(3, 1, png::BitDepth::Four, &[0x0f, 0x70]), [0, 255, 119]);
}

#[test]
fn custom_sheets_of_any_depth_can_be_built() {
    let mut c = settings("custom");
    c.custom_sprite = Some(custom(1, 1));
    let files = files();
    let gray = png_of_depth(2, 1, png::ColorType::Grayscale, png::BitDepth::One, &[0b1000_0000]);
    let atlas = build_atlas(&c, &art(&files), Some(&gray)).unwrap().ok().unwrap();
    assert_eq!(atlas.frames.len(), 2);
    let deep = [200, 1, 100, 1, 50, 1, 255, 1];
    let deep = png_of_depth(1, 1, png::ColorType::Rgba, png::BitDepth::Sixteen, &deep);
    let atlas = build_atlas(&c, &art(&files), Some(&deep)).unwrap().ok().unwrap();
    let at = ((atlas.width + 1) * 4) as usize;
    assert_eq!(atlas.pixels[at..at + 4], [200, 100, 50, 255]);
}

#[test]
fn frames_that_do_not_fill_their_size_are_refused() {
    let frame = |color: u8, depth: u8, data: Vec<u8>| {
        expand(RawFrame { width: 2, height: 1, color, depth, size: data.len(), data }).err()
    };
    assert_eq!(frame(6, 8, vec![0; 7]), Some(AssetError::PngSize));
    assert_eq!(frame(6, 8, vec![0; 9]), Some(AssetError::PngSize));
    assert_eq!(frame(6, 16, vec![0; 8]), Some(AssetError::PngSize));
    assert_eq!(frame(6, 4, vec![0; 4]), Some(AssetError::PngDepth(4)));
    assert_eq!(frame(0, 3, vec![0; 1]), Some(AssetError::PngDepth(3)));
    assert_eq!(frame(3, 8, vec![0; 2]), Some(AssetError::PngColor(3)));
    assert_eq!(frame(0, 1, vec![0; 1]), None);
    let data = Vec::new();
    let huge =
        RawFrame { width: u32::MAX, height: u32::MAX, color: 0, depth: 1, size: 0, data };
    assert_eq!(expand(huge).err(), Some(AssetError::Png(PngFault::TooLarge)));
}
