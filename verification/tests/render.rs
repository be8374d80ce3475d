use image::imageops::ColorMap;
use image::Luma;
use tymnl::render::{
    encode_page, luma_to_1bit, luma_to_2bit, pack_1bit, pack_2bit, process_1bit, process_2bit,
    save_png, Depth, Error, Palette2Bit,
};

/// The size, the bits of a pixel and the packed rows of a grayscale PNG.
fn decode(file: &[u8]) -> (u32, u32, u8, Vec<u8>) {
    let mut decoder = png::Decoder::new(file);
    decoder.set_transformations(png::Transformations::IDENTITY);
    let mut reader = decoder.read_info().unwrap();
    let mut data = vec![0; reader.output_buffer_size()];
    let info = reader.next_frame(&mut data).unwrap();
    assert_eq!(info.color_type, png::ColorType::Grayscale);
    data.truncate(info.buffer_size());
    (info.width, info.height, info.bit_depth as u8, data)
}

fn rgba(pixels: &[(u8, u8, u8)]) -> Vec<u8> {
    pixels.iter().flat_map(|p| [p.0, p.1, p.2, 255]).collect()
}

#[test]
fn the_palette_has_four_grays() {
    let edges = [
        (0u8, 0usize, 0u8),
        (42, 0, 0),
        (43, 1, 85),
        (127, 1, 85),
        (128, 2, 170),
        (212, 2, 170),
        (213, 3, 255),
        (255, 3, 255),
    ];
    for (luma, level, gray) in edges {
        assert_eq!(Palette2Bit::level(luma), level);
        assert_eq!(Palette2Bit::nearest(luma), gray);
        let mut color = Luma([luma]);
        assert_eq!(Palette2Bit.index_of(&color), level);
        Palette2Bit.map_color(&mut color);
        assert_eq!(color, Luma([gray]));
    }
}

#[test]
fn the_nearest_gray_is_the_nearest() {
    for luma in 0..=255u8 {
        let near = Palette2Bit::nearest(luma) as i32;
        for gray in [0, 85, 170, 255] {
            assert!((near - luma as i32).abs() <= (gray - luma as i32).abs());
        }
        assert_eq!(Palette2Bit::nearest(near as u8), near as u8);
    }
}

#[test]
fn eight_pixels_make_a_byte() {
    assert_eq!(pack_1bit(&[]), Vec::<u8>::new());
    assert_eq!(pack_1bit(&[255, 0, 0, 0, 0, 0, 0, 128]), [0b1000_0001]);
    assert_eq!(pack_1bit(&[127, 128]), [0b0100_0000]);
    assert_eq!(pack_1bit(&[255; 9]), [255, 0b1000_0000]);
}

#[test]
fn four_pixels_make_a_byte() {
    assert_eq!(pack_2bit(&[]), Vec::<u8>::new());
    assert_eq!(pack_2bit(&[0, 85, 170, 255]), [0b00_01_10_11]);
    assert_eq!(pack_2bit(&[42, 43, 127, 128]), [0b00_01_01_10]);
    assert_eq!(pack_2bit(&[212, 213]), [0b10_11_00_00]);
    assert_eq!(pack_2bit(&[255; 5]), [255, 0b11_00_00_00]);
}

#[test]
fn packed_pixels_are_kept() {
    let data: Vec<u8> = (0..100u32).map(|i| (i * 37 % 256) as u8).collect();
    let bits = pack_1bit(&data);
    let levels = pack_2bit(&data);
    for (i, p) in data.iter().enumerate() {
        assert_eq!(bits[i / 8] >> (7 - i % 8) & 1 == 1, *p > 127);
        assert_eq!((levels[i / 4] >> (6 - 2 * (i % 4)) & 3) as usize, Palette2Bit::level(*p));
    }
}

#[test]
fn files_hold_what_was_packed() {
    let file = save_png(&[0b1010_0101, 0b1111_0000], 8, 2, Depth::Bit1).unwrap();
    assert_eq!(decode(&file), (8, 2, 1, vec![0b1010_0101, 0b1111_0000]));
    let file = save_png(&[0b00_01_10_11], 4, 1, Depth::Bit2).unwrap();
    assert_eq!(decode(&file), (4, 1, 2, vec![0b00_01_10_11]));
    let file = save_png(&[1, 2, 3], 3, 1, Depth::Native).unwrap();
    assert_eq!(decode(&file), (3, 1, 8, vec![1, 2, 3]));
    let file = save_png(&[0b1010_0000], 3, 1, Depth::Bit1).unwrap();
    assert_eq!(decode(&file).3, [0b1010_0000]);
}

#[test]
fn files_need_all_rows_and_no_more() {
    for (data, width, height) in [(0usize, 8, 1), (2, 8, 1), (1, 9, 1), (1, 0, 1), (0, 8, 0)] {
        match save_png(&vec![0; data], width, height, Depth::Bit1) {
            Err(Error::Encoding(message)) => assert!(!message.is_empty()),
            other => panic!("{:?}", other),
        }
    }
}

#[test]
fn bright_pixels_are_white() {
    let file = luma_to_1bit(vec![0, 160, 161, 255, 0, 0, 0, 0], 8, 1).unwrap();
    assert_eq!(decode(&file).3, [0b0011_0000]);
}

#[test]
fn rows_that_do_not_fill_bytes_fail() {
    assert!(luma_to_1bit(vec![0; 18], 9, 2).is_err());
    assert!(luma_to_1bit(vec![0; 12], 4, 3).is_err());
    assert!(luma_to_1bit(vec![0; 16], 8, 2).is_ok());
    assert!(luma_to_1bit(vec![0; 5], 5, 1).is_ok());
    assert!(luma_to_2bit(vec![0; 10], 5, 2).is_err());
    assert!(luma_to_2bit(vec![0; 8], 4, 2).is_ok());
    // By chance as many bytes come out as rows of full bytes have.
    assert!(luma_to_1bit(vec![0; 10], 5, 2).is_ok());
}

#[test]
fn grays_of_the_palette_stay() {
    let file = luma_to_2bit(vec![0, 85, 170, 255], 4, 1).unwrap();
    assert_eq!(decode(&file), (4, 1, 2, vec![0b00_01_10_11]));
}

#[test]
fn grays_between_are_mixed() {
    let file = luma_to_2bit(vec![128; 64], 8, 8).unwrap();
    let data = decode(&file).3;
    let levels: Vec<u32> = data
        .iter()
        .flat_map(|b| [b >> 6 & 3, b >> 4 & 3, b >> 2 & 3, b & 3])
        .map(|l| l as u32 * 85)
        .collect();
    assert!(levels.iter().any(|l| *l == 85) && levels.iter().any(|l| *l == 170));
    let mean = levels.iter().sum::<u32>() / 64;
    assert!((118..=138).contains(&mean), "{}", mean);
}

#[test]
fn colors_have_their_brightness() {
    let pixels = [
        (0, 0, 0),
        (255, 255, 255),
        (255, 0, 0),
        (0, 255, 0),
        (0, 0, 255),
        (255, 255, 0),
        (160, 160, 160),
        (162, 162, 162),
    ];
    let file = process_1bit(rgba(&pixels), 8, 1).unwrap();
    assert_eq!(decode(&file).3, [0b0101_0101]);
    let file = process_2bit(rgba(&[(0, 0, 0), (85, 85, 85), (170, 170, 170), (255, 255, 255)]), 4, 1);
    assert_eq!(decode(&file.unwrap()).3, [0b00_01_10_11]);
}

#[test]
fn brightness_is_within_a_step_of_its_weights() {
    for red in 0..=255u8 {
        let mut pixels = Vec::with_capacity(4 * 65536);
        for green in 0..=255u8 {
            for blue in 0..=255u8 {
                pixels.extend_from_slice(&[red, green, blue, blue]);
            }
        }
        let image = image::RgbaImage::from_raw(256, 256, pixels).unwrap();
        let luma = image::DynamicImage::ImageRgba8(image).into_luma8().into_raw();
        for (i, l) in luma.iter().enumerate() {
            let (green, blue) = (i as i64 / 256, i as i64 % 256);
            let exact = 2126 * red as i64 + 7152 * green + 722 * blue;
            assert!((10000 * *l as i64 - exact).abs() <= 6000, "{} {} {}", red, green, blue);
        }
    }
}

#[test]
fn full_bytes_always_make_a_file() {
    for (width, height) in [(8, 1), (16, 3), (800, 480)] {
        let page = vec![255u8; 4 * width as usize * height as usize];
        assert!(process_1bit(page.clone(), width, height).is_ok());
        assert!(process_2bit(page, width, height).is_ok());
    }
}

#[test]
fn pages_are_encoded_in_their_depth() {
    let page = rgba(&[(255, 0, 0); 8]);
    let color = encode_page(page.clone(), 8, 1, Depth::Native).unwrap();
    let mut reader = png::Decoder::new(color.as_slice()).read_info().unwrap();
    let mut data = vec![0; reader.output_buffer_size()];
    let info = reader.next_frame(&mut data).unwrap();
    assert_eq!((info.width, info.height), (8, 1));
    assert_eq!(info.color_type, png::ColorType::Rgba);
    assert_eq!(data[..info.buffer_size()], page);
    assert_eq!(
        encode_page(page.clone(), 8, 1, Depth::Bit1).unwrap(),
        process_1bit(page.clone(), 8, 1).unwrap()
    );
    assert_eq!(
        encode_page(page.clone(), 8, 1, Depth::Bit2).unwrap(),
        process_2bit(page, 8, 1).unwrap()
    );
    assert!(encode_page(vec![0; 4 * 12], 4, 3, Depth::Bit1).is_err());
}

#[test]
fn the_default_depth_is_black_and_white() {
    assert_eq!(Depth::default(), Depth::Bit1);
}

#[test]
fn errors_of_pages_are_put_in_words() {
    assert_eq!(Error::Io("gone".to_string()).message(), "Input/Output error: gone");
    assert_eq!(Error::Encoding("bad".to_string()).message(), "Encoding to PNG failed: bad");
    assert_eq!(Error::Typst("error: x".to_string()).message(), "error: x");
}

#[test]
fn rows_start_with_a_byte() {
    let mut luma = vec![0u8; 32];
    luma[16 + 9] = 255;
    let file = luma_to_1bit(luma.clone(), 16, 2).unwrap();
    assert_eq!(decode(&file), (16, 2, 1, vec![0, 0, 0, 0b0100_0000]));
    let file = luma_to_2bit(luma, 16, 2).unwrap();
    assert_eq!(decode(&file).3, [0, 0, 0, 0, 0, 0, 0b00_11_00_00, 0]);
}
