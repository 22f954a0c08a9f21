use crabcrust::video::pac::DmdFrame;
use crabcrust::video::pac::PacAnimation;
use crabcrust::video::pac::PacHeader;
use crabcrust::video::pac::PacParseError;
use crabcrust::video::pac::parse_pac_animations;
use crabcrust::video::pac::try_deflate_decompress;
use crabcrust::video::pac::try_gzip_decompress;
use crabcrust::video::pac::try_zlib_decompress;
use std::io::Write;

#[test]
fn test_dmd_frame() {
    let mut frame = DmdFrame::new(128, 32);
    assert_eq!(frame.width, 128);
    assert_eq!(frame.height, 32);

    frame.set_pixel(0, 0, 15);
    assert_eq!(frame.get_pixel(0, 0), Some(15));
}

#[test]
fn test_dmd_frame_bounds_and_palette() {
    let mut frame = DmdFrame::new(8, 4);
    assert_eq!(frame.get_pixel(8, 0), None);
    assert_eq!(frame.get_pixel(0, 4), None);
    frame.set_pixel(9, 9, 3); // ignored
    assert_eq!(frame.get_pixel(0, 0), Some(0));
    // Default palette is 16 black entries; index 0 resolves to black.
    assert_eq!(frame.get_pixel_color(1, 1), Some([0, 0, 0]));
    // An index beyond the palette resolves to no color.
    frame.palette = vec![[9, 9, 9]];
    frame.set_pixel(1, 1, 5);
    assert_eq!(frame.get_pixel_color(1, 1), None);
}

#[test]
fn test_pac_header_parses() {
    let mut bytes: Vec<u8> = b"PAC ".to_vec();
    bytes.push(2); // minor
    bytes.push(1); // major
    bytes.push(0x34);
    bytes.push(0x12);
    bytes.push(0xAB);
    bytes.push(0xCD);
    let header = PacHeader::from_bytes(&bytes).unwrap();
    assert_eq!(&header.magic, b"PAC ");
    assert_eq!(header.version_major, 1);
    assert_eq!(header.version_minor, 2);
    assert_eq!(header.format_type, 0x1234);
    assert_eq!(header.data, vec![0xAB, 0xCD]);
    assert_eq!(header.version(), "1.2");
}

#[test]
fn test_pac_version_three_digits() {
    let mut bytes: Vec<u8> = b"PAC ".to_vec();
    bytes.extend_from_slice(&[0, 255, 0, 0]); // minor 0, major 255
    let header = PacHeader::from_bytes(&bytes).unwrap();
    assert_eq!(header.version(), "255.0");
}

#[test]
fn test_pac_header_rejects_bad_input() {
    let short = vec![b'P', b'A', b'C'];
    assert!(matches!(PacHeader::from_bytes(&short), Err(PacParseError::Truncated)));
    let wrong = b"PAK 1234".to_vec();
    assert!(matches!(PacHeader::from_bytes(&wrong), Err(PacParseError::BadMagic)));
}

#[test]
fn test_pac_animation_totals() {
    let mut f1 = DmdFrame::new(2, 2);
    f1.duration_ms = 40;
    let mut f2 = DmdFrame::new(2, 2);
    f2.duration_ms = 60;
    let anim = PacAnimation { name: String::from("test"), frames: vec![f1, f2] };
    assert_eq!(anim.frame_count(), 2);
    assert_eq!(anim.total_duration_ms(), 100);
}

#[test]
fn test_parse_pac_animations_yields_none_yet() {
    let mut bytes: Vec<u8> = b"PAC ".to_vec();
    bytes.extend_from_slice(&[0, 1, 0, 0]);
    let header = PacHeader::from_bytes(&bytes).unwrap();
    assert_eq!(parse_pac_animations(&header).len(), 0);
}

#[test]
fn test_zlib_probe_round_trips() {
    let mut enc = flate2::write::ZlibEncoder::new(Vec::new(), flate2::Compression::default());
    enc.write_all(b"pinball payload").unwrap();
    let compressed = enc.finish().unwrap();
    assert_eq!(try_zlib_decompress(&compressed), Some(b"pinball payload".to_vec()));
    // A zlib stream is not a gzip stream.
    assert_eq!(try_gzip_decompress(&compressed), None);
    // Garbage is rejected.
    assert_eq!(try_zlib_decompress(&vec![0xFF, 0xFF, 0xFF, 0xFF]), None);
}

#[test]
fn test_deflate_probe_round_trips() {
    let mut enc = flate2::write::DeflateEncoder::new(Vec::new(), flate2::Compression::default());
    enc.write_all(b"raw stream").unwrap();
    let compressed = enc.finish().unwrap();
    assert_eq!(try_deflate_decompress(&compressed), Some(b"raw stream".to_vec()));
}

#[test]
fn test_gzip_probe_round_trips() {
    let mut enc = flate2::write::GzEncoder::new(Vec::new(), flate2::Compression::default());
    enc.write_all(b"gz payload").unwrap();
    let compressed = enc.finish().unwrap();
    assert_eq!(try_gzip_decompress(&compressed), Some(b"gz payload".to_vec()));
    // An empty decompression result is not a hit.
    let mut empty = flate2::write::GzEncoder::new(Vec::new(), flate2::Compression::default());
    empty.write_all(b"").unwrap();
    let compressed_empty = empty.finish().unwrap();
    assert_eq!(try_gzip_decompress(&compressed_empty), None);
}
