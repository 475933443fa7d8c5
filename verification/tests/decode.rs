use windows_tray::decode::{
    announce_one_frame, find_image_data, find_last_chunk, icon_to_bgra, is_decodable, png_to_bgra,
    FileInfo, ACTL, FCTL, IHDR, TRNS,
};
use windows_tray::{TrayIcon, WindowsTrayError};

fn encode(
    color: png::ColorType,
    depth: png::BitDepth,
    width: u32,
    height: u32,
    data: &[u8],
) -> Vec<u8> {
    let mut bytes: Vec<u8> = Vec::new();
    let mut encoder = png::Encoder::new(&mut bytes, width, height);
    encoder.set_color(color);
    encoder.set_depth(depth);
    let mut writer = encoder.write_header().unwrap();
    writer.write_image_data(data).unwrap();
    writer.finish().unwrap();
    bytes
}

fn crc(bytes: &[u8]) -> u32 {
    let mut value: u32 = 0xFFFF_FFFF;
    for byte in bytes {
        value ^= u32::from(*byte);
        for _ in 0..8 {
            value = if value & 1 == 1 { (value >> 1) ^ 0xEDB8_8320 } else { value >> 1 };
        }
    }
    !value
}

fn chunk(tag: &[u8; 4], data: &[u8]) -> Vec<u8> {
    let mut body: Vec<u8> = tag.to_vec();
    body.extend_from_slice(data);
    let mut out: Vec<u8> = (data.len() as u32).to_be_bytes().to_vec();
    out.extend_from_slice(&body);
    out.extend_from_slice(&crc(&body).to_be_bytes());
    out
}

fn start(width: u32, height: u32, depth: u8, color: u8) -> Vec<u8> {
    let mut out: Vec<u8> = vec![0x89, 0x50, 0x4E, 0x47, 0x0D, 0x0A, 0x1A, 0x0A];
    let mut header: Vec<u8> = width.to_be_bytes().to_vec();
    header.extend_from_slice(&height.to_be_bytes());
    header.extend_from_slice(&[depth, color, 0, 0, 0]);
    out.extend_from_slice(&chunk(b"IHDR", &header));
    out
}

#[test]
fn no_bytes_are_a_bad_icon() {
    assert!(is_decodable(&[]));
    assert_eq!(png_to_bgra(&[]).unwrap().unwrap_err(), WindowsTrayError::BadIcon);
}

#[test]
fn junk_is_a_bad_icon() {
    let junk: Vec<u8> = vec![1, 2, 3, 4, 5, 6, 7, 8, 9, 10];
    assert!(is_decodable(&junk));
    assert_eq!(png_to_bgra(&junk).unwrap().unwrap_err(), WindowsTrayError::BadIcon);
}

#[test]
fn a_cut_file_is_a_bad_icon() {
    let bytes = encode(png::ColorType::Rgba, png::BitDepth::Eight, 2, 2, &[7; 16]);
    for length in 1..bytes.len() - 20 {
        let cut = &bytes[..length];
        assert!(is_decodable(cut));
        assert_eq!(png_to_bgra(cut).unwrap().unwrap_err(), WindowsTrayError::BadIcon);
    }
}

#[test]
fn rgba_comes_out_as_bgra() {
    let data: [u8; 8] = [1, 2, 3, 4, 5, 6, 7, 8];
    let bytes = encode(png::ColorType::Rgba, png::BitDepth::Eight, 2, 1, &data);
    assert!(is_decodable(&bytes));
    let image = png_to_bgra(&bytes).unwrap().unwrap();
    assert_eq!((image.width, image.height), (2, 1));
    assert_eq!(image.pixels, vec![3, 2, 1, 4, 7, 6, 5, 8]);
}

#[test]
fn rgb_comes_out_opaque() {
    let data: [u8; 6] = [1, 2, 3, 4, 5, 6];
    let bytes = encode(png::ColorType::Rgb, png::BitDepth::Eight, 1, 2, &data);
    let image = png_to_bgra(&bytes).unwrap().unwrap();
    assert_eq!((image.width, image.height), (1, 2));
    assert_eq!(image.pixels, vec![3, 2, 1, 255, 6, 5, 4, 255]);
}

#[test]
fn grey_comes_out_opaque() {
    let bytes = encode(png::ColorType::Grayscale, png::BitDepth::Eight, 2, 1, &[9, 200]);
    assert_eq!(png_to_bgra(&bytes).unwrap().unwrap().pixels, vec![9, 9, 9, 255, 200, 200, 200, 255]);
}

#[test]
fn grey_with_alpha_comes_out_with_alpha() {
    let data: [u8; 4] = [9, 10, 200, 20];
    let bytes = encode(png::ColorType::GrayscaleAlpha, png::BitDepth::Eight, 2, 1, &data);
    assert_eq!(png_to_bgra(&bytes).unwrap().unwrap().pixels, vec![9, 9, 9, 10, 200, 200, 200, 20]);
}

#[test]
fn one_bit_grey_is_spread_to_eight() {
    let bytes = encode(png::ColorType::Grayscale, png::BitDepth::One, 2, 1, &[0b0100_0000]);
    assert_eq!(png_to_bgra(&bytes).unwrap().unwrap().pixels, vec![0, 0, 0, 255, 255, 255, 255, 255]);
}

#[test]
fn sixteen_bit_samples_lose_their_lower_byte() {
    let data: [u8; 6] = [0x12, 0xFF, 0x34, 0xFF, 0x56, 0xFF];
    let bytes = encode(png::ColorType::Rgb, png::BitDepth::Sixteen, 1, 1, &data);
    assert_eq!(png_to_bgra(&bytes).unwrap().unwrap().pixels, vec![0x56, 0x34, 0x12, 255]);
}

#[test]
fn palettes_are_resolved() {
    let mut bytes: Vec<u8> = Vec::new();
    let mut encoder = png::Encoder::new(&mut bytes, 2, 1);
    encoder.set_color(png::ColorType::Indexed);
    encoder.set_depth(png::BitDepth::Eight);
    encoder.set_palette(vec![10, 20, 30, 40, 50, 60]);
    let mut writer = encoder.write_header().unwrap();
    writer.write_image_data(&[1, 0]).unwrap();
    writer.finish().unwrap();
    assert!(is_decodable(&bytes));
    assert_eq!(png_to_bgra(&bytes).unwrap().unwrap().pixels, vec![60, 50, 40, 255, 30, 20, 10, 255]);
}

#[test]
fn an_icon_is_read_from_its_bytes() {
    let bytes = encode(png::ColorType::Rgba, png::BitDepth::Eight, 1, 1, &[1, 2, 3, 4]);
    let icon = TrayIcon::Png { bytes };
    assert_eq!(icon_to_bgra(&icon).unwrap().unwrap().pixels, vec![3, 2, 1, 4]);
    let empty = TrayIcon::Png { bytes: vec![] };
    assert_eq!(icon_to_bgra(&empty).unwrap().unwrap_err(), WindowsTrayError::BadIcon);
}

#[test]
fn an_image_without_lines_is_a_bad_icon() {
    let mut bytes = start(4, 0, 8, 6);
    bytes.extend_from_slice(&chunk(b"IDAT", &[]));
    bytes.extend_from_slice(&chunk(b"IEND", &[]));
    assert!(is_decodable(&bytes));
    assert_eq!(png_to_bgra(&bytes).unwrap().unwrap_err(), WindowsTrayError::BadIcon);
}

#[test]
fn a_broken_palette_is_a_bad_icon_where_no_line_reads() {
    for length in [4usize, 768, 771] {
        let mut bytes = start(1, 1, 8, 3);
        bytes.extend_from_slice(&chunk(b"PLTE", &vec![1; length]));
        bytes.extend_from_slice(&chunk(b"IDAT", &[]));
        assert!(is_decodable(&bytes));
        assert_eq!(png_to_bgra(&bytes).unwrap().unwrap_err(), WindowsTrayError::BadIcon);
    }
    let palette = chunk(b"PLTE", &[1, 2, 3, 4]);
    let whole = indexed(8, &[palette]);
    assert!(!is_decodable(&whole));
    let cut = &whole[..whole.len() - 24];
    assert!(is_decodable(cut));
    assert_eq!(png_to_bgra(cut).unwrap().unwrap_err(), WindowsTrayError::BadIcon);
}

#[test]
fn a_broken_palette_stands_in_the_way_once_a_line_reads() {
    for length in [1usize, 2, 4, 5, 769, 771] {
        let bytes = indexed(8, &[chunk(b"PLTE", &vec![1; length])]);
        assert!(!is_decodable(&bytes));
        assert!(png_to_bgra(&bytes).is_none());
        assert!(icon_to_bgra(&TrayIcon::Png { bytes }).is_none());
    }
}

#[test]
fn an_animation_without_frames_is_a_bad_icon() {
    let none = chunk(b"acTL", &[0; 8]);
    let mut frame: Vec<u8> = vec![0, 0, 0, 0, 0, 0, 0, 1, 0, 0, 0, 1];
    frame.extend_from_slice(&[0; 14]);
    let palette = chunk(b"PLTE", &[1, 2, 3, 4]);
    let bytes = indexed(8, &[none.clone(), palette.clone(), chunk(b"fcTL", &frame)]);
    assert!(is_decodable(&bytes));
    assert_eq!(png_to_bgra(&bytes).unwrap().unwrap_err(), WindowsTrayError::BadIcon);
    let aside = indexed(8, &[none, palette]);
    assert!(!is_decodable(&aside));
}

#[test]
fn chunks_are_found_before_the_image_data() {
    let one = chunk(b"acTL", &[0, 0, 0, 1, 0, 0, 0, 0]);
    let two = chunk(b"acTL", &[0, 0, 0, 2, 0, 0, 0, 0]);
    let text = chunk(b"tEXt", b"a\0acTL and tRNS");
    let none = chunk(b"tRNS", &[]);
    let bytes = indexed(8, &[one, text, two, none, chunk(b"PLTE", &[7; 93])]);
    assert_eq!(find_last_chunk(&bytes, IHDR), Some(8));
    assert_eq!(find_last_chunk(&bytes, ACTL), Some(33 + 20 + 27));
    assert_eq!(find_last_chunk(&bytes, TRNS), None);
    assert_eq!(find_last_chunk(&bytes, FCTL), None);
    assert_eq!(find_image_data(&bytes), Some(33 + 20 + 27 + 20 + 12 + 105));
}

#[test]
fn chunks_after_the_image_data_are_left_alone() {
    let mut bytes = start(1, 1, 8, 0);
    bytes.extend_from_slice(&chunk(b"IDAT", &stored(&[0, 99])));
    bytes.extend_from_slice(&chunk(b"acTL", &[0xFF; 8]));
    assert_eq!(find_image_data(&bytes), Some(33));
    assert_eq!(find_last_chunk(&bytes, ACTL), None);
}

#[test]
fn a_cut_chunk_ends_the_search() {
    let mut bytes = start(1, 1, 8, 0);
    bytes.extend_from_slice(&[0, 0, 0, 9]);
    bytes.extend_from_slice(b"tEXt");
    bytes.extend_from_slice(b"IDATIDAT");
    assert_eq!(find_image_data(&bytes), None);
    assert_eq!(find_image_data(&bytes[..33]), None);
    assert_eq!(find_image_data(&[]), None);
    assert_eq!(find_last_chunk(&[], IHDR), None);
}

#[test]
fn a_file_that_announces_one_frame_looks_the_same() {
    let many = chunk(b"acTL", &[0, 0, 0, 9, 0, 0, 0, 0]);
    let bytes = indexed(8, &[many, chunk(b"PLTE", &[7; 93])]);
    let data = find_image_data(&bytes).unwrap();
    let other = announce_one_frame(&bytes, data);
    assert_eq!(find_image_data(&other), Some(data + 20));
    assert_eq!(find_last_chunk(&other, ACTL), Some(data));
    assert_eq!(other[data..data + 20], chunk(b"acTL", &[0, 0, 0, 1, 0, 0, 0, 0]));
    assert_eq!(
        png_to_bgra(&other).unwrap().unwrap().pixels,
        png_to_bgra(&bytes).unwrap().unwrap().pixels
    );
}

#[test]
fn a_tag_in_a_text_is_no_chunk() {
    let text = chunk(b"tEXt", b"a\0acTL\xFF\xFF\xFF\xFF IHDR\xFF\xFF\xFF\xFF tRNS");
    let bytes = indexed(8, &[text, chunk(b"PLTE", &[7; 93])]);
    assert!(is_decodable(&bytes));
    assert_eq!(png_to_bgra(&bytes).unwrap().unwrap().pixels, vec![7, 7, 7, 255]);
}

#[test]
fn wide_lines_with_transparency_are_a_bad_icon_here() {
    let mut bytes = start(0x7FFF_FFFF, 1, 8, 2);
    bytes.extend_from_slice(&chunk(b"tRNS", &[0; 6]));
    bytes.extend_from_slice(&chunk(b"IDAT", &[]));
    assert!(is_decodable(&bytes));
    assert_eq!(png_to_bgra(&bytes).unwrap().unwrap_err(), WindowsTrayError::BadIcon);
}

#[test]
fn the_highest_number_of_frames_can_be_counted_here() {
    let frames = chunk(b"acTL", &[0xFF, 0xFF, 0xFF, 0xFF, 0, 0, 0, 0]);
    let bytes = indexed(8, &[frames, chunk(b"PLTE", &[7; 93])]);
    assert!(is_decodable(&bytes));
    assert_eq!(png_to_bgra(&bytes).unwrap().unwrap().pixels, vec![7, 7, 7, 255]);
}

/// Data in a zlib stream, without compression.
fn stored(data: &[u8]) -> Vec<u8> {
    let length = data.len() as u16;
    let mut out: Vec<u8> = vec![0x78, 0x01, 0x01];
    out.extend_from_slice(&length.to_le_bytes());
    out.extend_from_slice(&(!length).to_le_bytes());
    out.extend_from_slice(data);
    let (mut low, mut high): (u32, u32) = (1, 0);
    for byte in data {
        low = (low + u32::from(*byte)) % 65521;
        high = (high + low) % 65521;
    }
    out.extend_from_slice(&(high * 65536 + low).to_be_bytes());
    out
}

#[test]
fn lines_in_several_passes_are_put_in_order() {
    let mut bytes: Vec<u8> = vec![0x89, 0x50, 0x4E, 0x47, 0x0D, 0x0A, 0x1A, 0x0A];
    bytes.extend_from_slice(&chunk(b"IHDR", &[0, 0, 0, 2, 0, 0, 0, 2, 8, 0, 0, 0, 1]));
    bytes.extend_from_slice(&chunk(b"IDAT", &stored(&[0, 10, 0, 20, 0, 30, 40])));
    bytes.extend_from_slice(&chunk(b"IEND", &[]));
    assert!(is_decodable(&bytes));
    assert_eq!(
        png_to_bgra(&bytes).unwrap().unwrap().pixels,
        vec![10, 10, 10, 255, 20, 20, 20, 255, 30, 30, 30, 255, 40, 40, 40, 255]
    );
}

#[test]
fn a_header_without_data_is_passed_over() {
    let mut bytes: Vec<u8> = vec![0x89, 0x50, 0x4E, 0x47, 0x0D, 0x0A, 0x1A, 0x0A];
    bytes.extend_from_slice(&chunk(b"IHDR", &[]));
    bytes.extend_from_slice(&chunk(b"IHDR", &[0, 0, 0, 1, 0, 0, 0, 1, 8, 0, 0, 0, 0]));
    bytes.extend_from_slice(&chunk(b"IDAT", &stored(&[0, 99])));
    bytes.extend_from_slice(&chunk(b"IEND", &[]));
    assert!(is_decodable(&bytes));
    assert_eq!(png_to_bgra(&bytes).unwrap().unwrap().pixels, vec![99, 99, 99, 255]);
}

#[test]
fn a_broken_palette_in_a_damaged_file_is_a_bad_icon() {
    let mut bytes = start(1, 1, 8, 3);
    bytes.extend_from_slice(&chunk(b"PLTE", &[1, 2, 3, 4]));
    let end = bytes.len() - 1;
    bytes[end] ^= 1;
    bytes.extend_from_slice(&chunk(b"IDAT", &[]));
    assert!(is_decodable(&bytes));
    assert_eq!(png_to_bgra(&bytes).unwrap().unwrap_err(), WindowsTrayError::BadIcon);
}

fn info(width: u32, height: u32, color: u8, palette: Option<Vec<u8>>) -> FileInfo {
    FileInfo {
        width,
        height,
        samples: 4,
        interlaced: false,
        color,
        palette,
        frames: None,
        frame: None,
    }
}

#[test]
fn a_file_is_sound_where_its_palette_is() {
    assert!(info(16, 16, 6, None).is_sound());
    assert!(info(16, 16, 3, None).is_sound());
    assert!(info(16, 16, 3, Some(vec![0; 768])).is_sound());
    assert!(!info(16, 16, 3, Some(vec![0; 771])).is_sound());
    assert!(!info(16, 16, 3, Some(vec![0; 5])).is_sound());
    assert!(info(16, 16, 2, Some(vec![0; 5])).is_sound());
}

#[test]
fn an_image_has_room_where_its_size_can_be_kept() {
    assert!(info(0x7FFF_FFFF, 0x3FFF_FFFF, 6, None).has_room());
    assert!(!info(0x7FFF_FFFF, 0x7FFF_FFFF, 6, None).has_room());
    let grey = FileInfo { samples: 1, ..info(0x7FFF_FFFF, 0x7FFF_FFFF, 0, None) };
    assert!(grey.has_room());
    assert!(!info(0xFFFF_FFFF, 0xFFFF_FFFF, 6, None).has_room());
}

#[test]
fn bits_are_counted_where_lines_come_in_passes() {
    let large = info(0x7FFF_FFFF, 0x3FFF_FFFF, 6, None);
    assert!(large.is_sound());
    assert!(!FileInfo { interlaced: true, ..large }.is_sound());
    let small = info(16, 16, 6, None);
    assert!(FileInfo { interlaced: true, ..small }.is_sound());
    let part = info(0x7FFF_FFFF, 0x3FFF_FFFF, 6, None);
    assert!(FileInfo { interlaced: true, frame: Some((1, 1)), ..part }.is_sound());
    let lower = info(0x7FFF_FFFF, 0x3FFF_FFFF, 6, None);
    assert!(!FileInfo { interlaced: true, frame: Some((1, 0x3FFF_FFFF)), ..lower }.is_sound());
}

#[test]
fn there_is_a_frame_unless_none_is_announced() {
    let still = info(1, 1, 6, None);
    assert!(still.has_frame());
    assert!(FileInfo { frames: Some(0), ..still }.has_frame());
    let framed = FileInfo { frame: Some((1, 1)), ..info(1, 1, 6, None) };
    assert!(framed.has_frame());
    assert!(!FileInfo { frames: Some(0), ..framed }.has_frame());
    let one = info(1, 1, 6, None);
    assert!(FileInfo { frames: Some(1), frame: Some((1, 1)), ..one }.has_frame());
}

#[test]
fn a_broken_palette_matters_only_to_indices() {
    let mut bytes = start(1, 1, 8, 2);
    bytes.extend_from_slice(&chunk(b"PLTE", &[1, 2, 3, 4]));
    bytes.extend_from_slice(&chunk(b"IDAT", &stored(&[0, 1, 2, 3])));
    bytes.extend_from_slice(&chunk(b"IEND", &[]));
    assert!(is_decodable(&bytes));
    assert_eq!(png_to_bgra(&bytes).unwrap().unwrap().pixels, vec![3, 2, 1, 255]);
}

#[test]
fn a_palette_behind_another_chunk_is_found() {
    let gamma = chunk(b"gAMA", &[0, 0, 0xB1, 0x8F]);
    assert!(!is_decodable(&indexed(8, &[gamma, chunk(b"PLTE", &[1, 2, 3, 4])])));
}

#[test]
fn lines_too_long_for_the_decoder_are_a_bad_icon() {
    let mut bytes = start(0x7FFF_FFFF, 0x6000_0000, 8, 6);
    bytes.extend_from_slice(&chunk(b"IDAT", &[]));
    assert!(is_decodable(&bytes));
    assert_eq!(png_to_bgra(&bytes).unwrap().unwrap_err(), WindowsTrayError::BadIcon);
}

#[test]
fn an_animation_with_no_room_is_not_decodable() {
    let mut bytes = start(0x7FFF_FFFF, 0x6000_0000, 8, 6);
    bytes.extend_from_slice(&chunk(b"acTL", &[0, 0, 0, 1, 0, 0, 0, 0]));
    let mut frame: Vec<u8> = vec![0, 0, 0, 0];
    frame.extend_from_slice(&[0, 0, 0, 1, 0, 0, 0, 1]);
    frame.extend_from_slice(&[0; 14]);
    bytes.extend_from_slice(&chunk(b"fcTL", &frame));
    bytes.extend_from_slice(&chunk(b"IDAT", &[]));
    assert!(!is_decodable(&bytes));
}

/// An indexed image of one line whose chunks before the data are given.
fn indexed(depth: u8, chunks: &[Vec<u8>]) -> Vec<u8> {
    let line: &[u8] = &[0b0001_1011];
    let width: u32 = 8 / u32::from(depth);
    let grey = match depth {
        1 => png::BitDepth::One,
        2 => png::BitDepth::Two,
        4 => png::BitDepth::Four,
        _ => png::BitDepth::Eight,
    };
    let plain = encode(png::ColorType::Grayscale, grey, width, 1, line);
    let mut bytes = start(width, 1, depth, 3);
    for part in chunks {
        bytes.extend_from_slice(part);
    }
    bytes.extend_from_slice(&plain[33..]);
    bytes
}

#[test]
fn sound_palettes_of_every_length_are_taken() {
    for depth in [1u8, 2, 4, 8] {
        for length in 0..780usize {
            let bytes = indexed(depth, &[chunk(b"PLTE", &vec![7; length])]);
            let sound = length % 3 == 0 && length <= 768;
            assert_eq!(is_decodable(&bytes), sound);
            if sound {
                let _ = png_to_bgra(&bytes);
            }
        }
    }
}

#[test]
fn transparency_of_every_length_is_taken() {
    for length in 0..300usize {
        let palette = chunk(b"PLTE", &[7; 30]);
        let clear = chunk(b"tRNS", &vec![9; length]);
        let bytes = indexed(8, &[palette, clear]);
        assert!(is_decodable(&bytes));
        let _ = png_to_bgra(&bytes);
    }
}

#[test]
fn transparency_of_a_palette_becomes_alpha() {
    let palette = chunk(b"PLTE", &[1, 2, 3, 4, 5, 6, 7, 8, 9, 10, 11, 12]);
    let clear = chunk(b"tRNS", &[50, 60]);
    let bytes = indexed(2, &[palette, clear]);
    assert!(is_decodable(&bytes));
    assert_eq!(
        png_to_bgra(&bytes).unwrap().unwrap().pixels,
        vec![3, 2, 1, 50, 6, 5, 4, 60, 9, 8, 7, 255, 12, 11, 10, 255]
    );
}

#[test]
fn an_image_of_indices_without_a_palette_is_a_bad_icon() {
    let bytes = indexed(8, &[]);
    assert!(is_decodable(&bytes));
    assert_eq!(png_to_bgra(&bytes).unwrap().unwrap_err(), WindowsTrayError::BadIcon);
}

#[test]
fn damaged_files_are_taken_or_turned_down() {
    let data: [u8; 16] = [3; 16];
    let bytes = encode(png::ColorType::Rgba, png::BitDepth::Eight, 2, 2, &data);
    for place in 0..bytes.len() {
        for change in [0x01u8, 0x20, 0x80, 0xFF] {
            let mut damaged = bytes.clone();
            damaged[place] ^= change;
            if is_decodable(&damaged) {
                let _ = png_to_bgra(&damaged);
            }
        }
    }
}
