use floaty::image::{Area, Image, OutOfBounds};

/// A picture whose pixel at (x, y) is (x, y, 7, alpha).
fn picture(width: u32, height: u32, alpha: fn(u32, u32) -> u8) -> Image {
    let mut data = Vec::new();
    for y in 0..height {
        for x in 0..width {
            data.extend_from_slice(&[x as u8, y as u8, 7, alpha(x, y)]);
        }
    }
    Image { width, height, data }
}

#[test]
fn cropping_copies_the_area() {
    let p = picture(5, 4, |_, _| 255);
    let c = p.crop(1, 2, 3, 2).unwrap();
    assert_eq!((c.width, c.height), (3, 2));
    assert_eq!(
        c.data,
        vec![1, 2, 7, 255, 2, 2, 7, 255, 3, 2, 7, 255, 1, 3, 7, 255, 2, 3, 7, 255, 3, 3, 7, 255]
    );
}

#[test]
fn cropping_everything_changes_nothing() {
    let p = picture(5, 4, |x, y| (x * 10 + y) as u8);
    assert_eq!(p.crop(0, 0, 5, 4).unwrap().data, p.data);
}

#[test]
fn cropping_outside_is_refused() {
    let p = picture(5, 4, |_, _| 255);
    assert!(matches!(p.crop(3, 0, 3, 1), Err(OutOfBounds)));
    assert!(matches!(p.crop(0, 3, 1, 2), Err(OutOfBounds)));
    assert!(p.crop(5, 4, 0, 0).is_ok());
}

#[test]
fn crops_that_run_past_the_data_are_told_apart() {
    let mut p = picture(5, 4, |_, _| 255);
    assert!(p.can_crop(2, 2, 3, 2));
    p.data.truncate(12);
    assert!(!p.can_crop(2, 2, 3, 2));
    assert!(p.can_crop(0, 0, 3, 1));
    assert!(!p.can_crop(u32::MAX, 0, 1, 1));
}

#[test]
fn bounds_hold_every_visible_pixel() {
    let p = picture(6, 5, |x, y| if (x, y) == (2, 1) || (x, y) == (4, 3) { 9 } else { 0 });
    assert_eq!(p.alpha_bounds(), Some(Area { x: 2, y: 1, w: 3, h: 3 }));
    let all = picture(6, 5, |_, _| 255);
    assert_eq!(all.alpha_bounds(), Some(Area { x: 0, y: 0, w: 6, h: 5 }));
}

#[test]
fn faint_pixels_do_not_count() {
    assert_eq!(picture(3, 3, |_, _| 8).alpha_bounds(), None);
    let p = picture(3, 3, |x, y| if (x, y) == (1, 1) { 9 } else { 8 });
    assert_eq!(p.alpha_bounds(), Some(Area { x: 1, y: 1, w: 1, h: 1 }));
    assert_eq!(picture(0, 0, |_, _| 255).alpha_bounds(), None);
}

#[test]
fn pictures_with_too_little_data_are_not_sound() {
    let mut p = picture(3, 3, |_, _| 255);
    assert!(p.is_sound());
    p.data.pop();
    assert!(!p.is_sound());
}
