use windows_tray::pixels::{to_bgra, to_bgra_image, to_rgba, ColorType, DecodedImage};
use windows_tray::WindowsTrayError;

fn image(color: ColorType, width: u32, height: u32, data: Vec<u8>) -> DecodedImage {
    DecodedImage { width, height, color, data }
}

#[test]
fn rgba_is_kept() {
    assert_eq!(to_rgba(ColorType::Rgba, &vec![1, 2, 3, 4]), Some(vec![1, 2, 3, 4]));
}

#[test]
fn rgb_becomes_opaque() {
    assert_eq!(
        to_rgba(ColorType::Rgb, &vec![1, 2, 3, 4, 5, 6]),
        Some(vec![1, 2, 3, 255, 4, 5, 6, 255])
    );
}

#[test]
fn grey_is_repeated() {
    assert_eq!(to_rgba(ColorType::Grayscale, &vec![7, 9]), Some(vec![7, 7, 7, 255, 9, 9, 9, 255]));
}

#[test]
fn grey_with_alpha_keeps_its_alpha() {
    assert_eq!(
        to_rgba(ColorType::GrayscaleAlpha, &vec![7, 8, 9, 10]),
        Some(vec![7, 7, 7, 8, 9, 9, 9, 10])
    );
}

#[test]
fn indices_have_no_colours() {
    assert_eq!(to_rgba(ColorType::Indexed, &vec![0, 1, 2]), None);
}

#[test]
fn parts_of_pixels_are_dropped() {
    assert_eq!(to_rgba(ColorType::Rgb, &vec![1, 2, 3, 4]), Some(vec![1, 2, 3, 255]));
    assert_eq!(to_rgba(ColorType::GrayscaleAlpha, &vec![1, 2, 3]), Some(vec![1, 1, 1, 2]));
    assert_eq!(to_bgra(&vec![1, 2, 3, 4, 5, 6]), vec![3, 2, 1, 4]);
}

#[test]
fn red_and_blue_change_places() {
    assert_eq!(to_bgra(&vec![1, 2, 3, 4, 5, 6, 7, 8]), vec![3, 2, 1, 4, 7, 6, 5, 8]);
}

#[test]
fn exchanging_twice_changes_nothing() {
    let pixels: Vec<u8> = vec![10, 20, 30, 40, 50, 60, 70, 80];
    assert_eq!(to_bgra(&to_bgra(&pixels)), pixels);
}

#[test]
fn every_pixel_takes_four_bytes() {
    let decoded = image(ColorType::Rgb, 2, 1, vec![1, 2, 3, 4, 5, 6]);
    let bgra = to_bgra_image(&decoded).unwrap();
    assert_eq!((bgra.width, bgra.height), (2, 1));
    assert_eq!(bgra.pixels, vec![3, 2, 1, 255, 6, 5, 4, 255]);
}

#[test]
fn an_image_without_pixels_is_a_bad_icon() {
    let flat = image(ColorType::Rgba, 4, 0, vec![]);
    assert_eq!(to_bgra_image(&flat).unwrap_err(), WindowsTrayError::BadIcon);
    let narrow = image(ColorType::Rgba, 0, 4, vec![]);
    assert_eq!(to_bgra_image(&narrow).unwrap_err(), WindowsTrayError::BadIcon);
}

#[test]
fn an_image_of_indices_is_a_bad_icon() {
    let indexed = image(ColorType::Indexed, 1, 1, vec![0]);
    assert_eq!(to_bgra_image(&indexed).unwrap_err(), WindowsTrayError::BadIcon);
}
