use floaty::atlas::{can_pack, pack, union_bounds, Facing, Look, PackError, SpriteAtlas, WaterMode};
use floaty::image::{Area, Image};
use floaty::single::Single;

fn look() -> Look {
    Look {
        fps: Single { bits: 2.0f32.to_bits() },
        mode: WaterMode::Swimmer,
        facing: Facing::Left,
        waterline: Single { bits: 0.5f32.to_bits() },
        rock: Single { bits: 0.25f32.to_bits() },
    }
}

fn frame(width: u32, height: u32, lit: &[(u32, u32, [u8; 4])]) -> Image {
    let mut data = vec![0u8; (width * height * 4) as usize];
    for &(x, y, p) in lit {
        let at = ((y * width + x) * 4) as usize;
        data[at..at + 4].copy_from_slice(&p);
    }
    Image { width, height, data }
}

fn texel(s: &SpriteAtlas, x: u32, y: u32) -> [u8; 4] {
    let at = ((y * s.width + x) * 4) as usize;
    [s.pixels[at], s.pixels[at + 1], s.pixels[at + 2], s.pixels[at + 3]]
}

#[test]
fn frames_share_the_area_that_holds_them_all() {
    let frames = vec![
        frame(4, 4, &[(1, 1, [10, 20, 30, 255])]),
        frame(4, 4, &[(2, 3, [200, 100, 50, 128])]),
    ];
    assert_eq!(union_bounds(&frames), Some(Area { x: 1, y: 1, w: 2, h: 3 }));
    assert!(can_pack(&frames));
    let s = pack(&frames, look()).unwrap();
    assert_eq!((s.frame_w, s.frame_h), (2, 3));
    assert_eq!((s.width, s.height), (7, 5));
    assert_eq!(s.frames, vec![Area { x: 1, y: 1, w: 2, h: 3 }, Area { x: 4, y: 1, w: 2, h: 3 }]);
    assert_eq!(s.pixels.len(), 7 * 5 * 4);
    for y in 0..5 {
        for x in 0..7 {
            let expected = match (x, y) {
                (1, 1) => [10, 20, 30, 255],
                (5, 3) => [100, 50, 25, 128],
                _ => [0, 0, 0, 0],
            };
            assert_eq!(texel(&s, x, y), expected, "({x}, {y})");
        }
    }
}

#[test]
fn the_look_is_passed_on() {
    let s = pack(&vec![frame(1, 1, &[(0, 0, [1, 2, 3, 255])])], look()).unwrap();
    assert_eq!(s.fps.bits, 2.0f32.to_bits());
    assert_eq!(s.mode, WaterMode::Swimmer);
    assert_eq!(s.facing, Facing::Left);
    assert_eq!(s.waterline.bits, 0.5f32.to_bits());
    assert_eq!(s.rock.bits, 0.25f32.to_bits());
}

#[test]
fn colors_never_exceed_their_alpha() {
    let mut lit = Vec::new();
    for a in 0..=255u32 {
        lit.push((a, 0, [255, a as u8, 128, a as u8]));
    }
    let s = pack(&vec![frame(256, 1, &lit)], look()).unwrap();
    for x in 0..s.width {
        for y in 0..s.height {
            let [r, g, b, a] = texel(&s, x, y);
            assert!(r <= a && g <= a && b <= a);
        }
    }
    // Alpha 9 is the first that is visible, and stands behind the gutter.
    assert_eq!(s.frame_w, 247);
    assert_eq!(texel(&s, 1, 1), [9, 0, 4, 9]);
}

#[test]
fn frames_lie_apart_in_a_clear_gutter() {
    let full: Vec<_> = (0..9).map(|i| (i % 3, i / 3, [255, 255, 255, 255])).collect();
    let frames: Vec<Image> = (0..4).map(|_| frame(3, 3, &full)).collect();
    let s = pack(&frames, look()).unwrap();
    for y in 0..s.height {
        for x in 0..s.width {
            let inside = s
                .frames
                .iter()
                .any(|f| f.x <= x && x < f.x + f.w && f.y <= y && y < f.y + f.h);
            assert_eq!(texel(&s, x, y)[3], if inside { 255 } else { 0 });
        }
    }
    for pair in s.frames.windows(2) {
        assert_eq!(pair[0].x + pair[0].w + 1, pair[1].x);
    }
    assert_eq!(s.frames[3].x + s.frames[3].w + 1, s.width);
}

#[test]
fn there_must_be_a_frame() {
    assert!(can_pack(&vec![]));
    assert!(matches!(pack(&vec![], look()), Err(PackError::NoFrames)));
}

#[test]
fn something_must_be_visible() {
    let frames = vec![frame(2, 2, &[]), frame(2, 2, &[(0, 0, [255, 255, 255, 8])])];
    assert_eq!(union_bounds(&frames), None);
    assert!(can_pack(&frames));
    assert!(matches!(pack(&frames, look()), Err(PackError::FullyTransparent)));
}

#[test]
fn frames_too_small_for_the_shared_area_cannot_be_packed() {
    let frames = vec![
        frame(4, 4, &[(3, 3, [1, 1, 1, 255])]),
        frame(2, 2, &[(0, 0, [1, 1, 1, 255])]),
    ];
    assert!(!can_pack(&frames));
}

#[test]
fn frames_with_too_little_data_cannot_be_packed() {
    let mut f = frame(2, 2, &[(0, 0, [1, 1, 1, 255])]);
    f.data.pop();
    assert!(!can_pack(&vec![f]));
}
