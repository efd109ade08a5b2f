use std::collections::HashSet;
use khudium::cli::{parse_anchor, AnchorSides};
use khudium::layout::{gap, k};
use khudium::render::{blend_onto, blend_pixel, first_font, key_is_pressed, pixel_index};

fn sides(top: bool, bottom: bool, left: bool, right: bool) -> AnchorSides {
    AnchorSides { top, bottom, left, right }
}

#[test]
fn anchors_from_placement() {
    assert_eq!(parse_anchor("bottom-right"), sides(false, true, false, true));
    assert_eq!(parse_anchor("top-left"), sides(true, false, true, false));
    assert_eq!(parse_anchor("Bottom-Center"), sides(false, true, false, false));
    assert_eq!(parse_anchor("TOP"), sides(true, false, false, false));
    assert_eq!(parse_anchor("center"), sides(false, true, false, true));
    assert_eq!(parse_anchor(""), sides(false, true, false, true));
}

#[test]
fn pressed_keys_light_up() {
    let mut held = HashSet::new();
    held.insert(30u16);
    held.insert(0u16);
    assert!(key_is_pressed(&k("A", 30, 100), &held));
    assert!(!key_is_pressed(&k("S", 31, 100), &held));
    assert!(!key_is_pressed(&gap(30), &held));
}

#[test]
fn pixel_indices() {
    assert_eq!(pixel_index(0, 0, 10, 5), Some(0));
    assert_eq!(pixel_index(3, 2, 10, 5), Some(23));
    assert_eq!(pixel_index(9, 4, 10, 5), Some(49));
    assert_eq!(pixel_index(10, 0, 10, 5), None);
    assert_eq!(pixel_index(0, 5, 10, 5), None);
    assert_eq!(pixel_index(-1, 0, 10, 5), None);
    assert_eq!(pixel_index(0, -3, 10, 5), None);
}

#[test]
fn blending() {
    assert_eq!(blend_pixel((200, 100, 50, 255), 255, (1, 2, 3, 4)), (200, 100, 50, 255));
    assert_eq!(blend_pixel((200, 100, 50, 255), 0, (1, 2, 3, 4)), (1, 2, 3, 4));
    // 255*128/255 = 128, 100*127/255 = 49
    assert_eq!(blend_pixel((255, 0, 0, 255), 128, (100, 100, 100, 200)), (177, 49, 49, 227));
    let c = blend_onto((255, 255, 255, 255), 128, (100, 100, 100, 200)).unwrap();
    assert_eq!(c.channels(), (177, 177, 177, 227));
    let tc = c.color();
    assert_eq!((tc.red(), tc.green(), tc.blue(), tc.alpha()), (177, 177, 177, 227));
    // a destination that is not premultiplied can give none
    assert!(blend_onto((255, 255, 255, 255), 1, (255, 255, 255, 0)).is_none());
    let d = blend_onto((10, 200, 30, 255), 255, (0, 0, 0, 0)).unwrap();
    assert_eq!(d.channels(), (10, 200, 30, 255));
}

#[test]
fn text_alpha_scales_the_glyph() {
    // A transparent text colour leaves every pixel as it was.
    assert_eq!(blend_pixel((255, 255, 255, 0), 255, (0, 0, 0, 0)), (0, 0, 0, 0));
    assert_eq!(blend_pixel((255, 255, 255, 0), 200, (10, 20, 30, 40)), (10, 20, 30, 40));
    let c = blend_onto((255, 255, 255, 0), 255, (5, 6, 7, 8)).unwrap();
    assert_eq!(c.channels(), (5, 6, 7, 8));
    // Half alpha at full coverage: opacity 255*128/255 = 128.
    assert_eq!(blend_pixel((255, 255, 255, 128), 255, (0, 0, 0, 0)), (128, 128, 128, 128));
    // opacity 128*128/255 = 64; 200*64/255 = 50, 100*191/255 = 74
    assert_eq!(blend_pixel((200, 200, 200, 128), 128, (100, 100, 100, 100)), (124, 124, 124, 138));
}

#[test]
fn first_readable_file_is_parsed() {
    assert!(first_font(&vec![]).is_none());
    assert!(first_font(&vec![None, None]).is_none());
    match first_font(&vec![None, Some(vec![0u8, 1, 2, 3]), None]) {
        Some(parsed) => assert!(parsed.is_none()),
        None => panic!("a readable file was given"),
    }
    match first_font(&vec![Some(Vec::new())]) {
        Some(parsed) => assert!(parsed.is_none()),
        None => panic!("a readable file was given"),
    }
}
