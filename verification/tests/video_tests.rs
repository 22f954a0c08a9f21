use crabcrust::BrailleFrame;
use crabcrust::BrailleGrid;
use crabcrust::blit_luma_to_braille;
use crabcrust::video::converter::ConvertError;
use crabcrust::video::converter::gif_to_frames;
use crabcrust::video::converter::image_to_frame;

#[test]
fn test_blit_luma_to_braille() {
    let mut grid = BrailleGrid::new(2, 2); // 4x8 dot resolution

    // Create a simple 4x8 white image
    let luma = vec![255u8; 4 * 8];

    blit_luma_to_braille(&luma, 4, 8, 128, &mut grid);

    // All cells should have dots
    for y in 0..2 {
        for x in 0..2 {
            assert!(!grid.is_empty(x, y));
        }
    }
}

#[test]
fn test_blit_luma_threshold() {
    let mut grid = BrailleGrid::new(2, 2);

    // Create an image with half dark, half bright
    let mut luma = vec![0u8; 4 * 8];
    for i in 0..luma.len() / 2 {
        luma[i] = 255;
    }

    blit_luma_to_braille(&luma, 4, 8, 128, &mut grid);

    // Top cells should have dots, bottom should be empty
    assert!(!grid.is_empty(0, 0));
    assert!(!grid.is_empty(1, 0));
}

#[test]
fn test_frame_round_trip_through_grid() {
    let mut grid = BrailleGrid::new(3, 2);
    grid.set_dot(0, 0);
    grid.set_dot(5, 7);
    let frame = BrailleFrame::from_grid(&grid, 42);
    assert_eq!(frame.width, 3);
    assert_eq!(frame.height, 2);
    assert_eq!(frame.duration_ms, 42);

    let mut fresh = BrailleGrid::new(3, 2);
    frame.apply_to_grid(&mut fresh);
    for y in 0..2 {
        for x in 0..3 {
            assert_eq!(fresh.get_char(x, y), grid.get_char(x, y));
        }
    }
}

#[test]
fn test_gif_to_frames_white_frame() {
    // Encode a single all-white 4x8 GIF frame in memory.
    let mut buf: Vec<u8> = Vec::new();
    {
        let mut enc = image::codecs::gif::GifEncoder::new(&mut buf);
        let img = image::RgbaImage::from_pixel(4, 8, image::Rgba([255, 255, 255, 255]));
        enc.encode_frame(image::Frame::new(img)).unwrap();
    }
    let frames = gif_to_frames(&buf, 2, 2, 128).unwrap();
    assert_eq!(frames.len(), 1);
    // Every dot of the 4x8 canvas samples a white pixel: all patterns full.
    assert_eq!(frames[0].patterns, vec![0xFF; 4]);
    // A zero delay is clamped up to the 10 ms floor.
    assert_eq!(frames[0].duration_ms, 10);
}

#[test]
fn test_gif_to_frames_rejects_garbage() {
    let garbage = vec![0u8, 1, 2, 3];
    assert!(matches!(gif_to_frames(&garbage, 2, 2, 128), Err(ConvertError::Decode)));
}

#[test]
fn test_image_to_frame_black_and_white() {
    // A grayscale PNG, left half black, right half white.
    let mut img = image::GrayImage::new(4, 8);
    for y in 0..8 {
        for x in 0..4 {
            let v = if x < 2 { 0u8 } else { 255u8 };
            img.put_pixel(x, y, image::Luma([v]));
        }
    }
    let mut cursor = std::io::Cursor::new(Vec::new());
    image::DynamicImage::ImageLuma8(img).write_to(&mut cursor, image::ImageFormat::Png).unwrap();
    let frame = image_to_frame(&cursor.into_inner(), 2, 2, 128).unwrap();
    assert_eq!(frame.duration_ms, 100);
    // Left column of cells dark, right column full.
    assert_eq!(frame.patterns, vec![0x00, 0xFF, 0x00, 0xFF]);
}
