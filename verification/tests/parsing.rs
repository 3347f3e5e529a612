use hugo4os::tga::{Image, TGAImageFile, TGAImageHeader, TGAImageParsingError};

fn sample_header() -> Vec<u8> {
    vec![
        0x07, // magic1
        0x00, // colormap
        0x02, // encoding: uncompressed true-color
        0x34, 0x12, // cmaporig
        0x78, 0x56, // cmaplen
        0x9A, // cmapent
        0x01, 0x00, // x
        0x02, 0x00, // y
        0x02, 0x00, // h
        0x01, 0x00, // w
        0x20, // bpp
        0x08, // pixeltype
    ]
}

#[test]
fn header_fields_read_little_endian() {
    let bytes = sample_header();
    let mut pos: usize = 0;
    let h = TGAImageHeader::from_byte_iterator(&bytes, &mut pos).expect("header parses");
    assert_eq!(pos, 18);
    assert_eq!(h.magic1, 0x07);
    assert_eq!(h.colormap, 0x00);
    assert_eq!(h.encoding, 0x02);
    assert_eq!(h.cmaporig, 0x1234);
    assert_eq!(h.cmaplen, 0x5678);
    assert_eq!(h.cmapent, 0x9A);
    assert_eq!(h.x, 1);
    assert_eq!(h.y, 2);
    assert_eq!(h.h, 2);
    assert_eq!(h.w, 1);
    assert_eq!(h.bpp, 0x20);
    assert_eq!(h.pixeltype, 0x08);
}

#[test]
fn unsupported_encoding_is_rejected_after_three_bytes() {
    let mut bytes = sample_header();
    bytes[2] = 0x03;
    let mut pos: usize = 0;
    let r = TGAImageHeader::from_byte_iterator(&bytes, &mut pos);
    assert!(matches!(r, Err(TGAImageParsingError::UnsupportedEncoding)));
}

#[test]
fn short_input_ends_early() {
    let mut pos: usize = 0;
    let r = TGAImageHeader::from_byte_iterator(&[], &mut pos);
    assert!(matches!(r, Err(TGAImageParsingError::UnexpectedEOF)));
    let mut pos: usize = 0;
    let r = TGAImageHeader::from_byte_iterator(&[0x00, 0x00, 0x02, 0x01], &mut pos);
    assert!(matches!(r, Err(TGAImageParsingError::UnexpectedEOF)));
}

#[test]
fn file_texels_decode_little_endian() {
    let mut bytes = sample_header();
    bytes.extend_from_slice(&[0x01, 0x02, 0x03, 0x04, 0xAA, 0xBB, 0xCC, 0xDD]);
    let f = TGAImageFile::from_bytes(&bytes).expect("file parses");
    assert_eq!(f.get_width(), 1);
    assert_eq!(f.get_height(), 2);
    assert_eq!(f.get_texture(), vec![0x04030201, 0xDDCCBBAA]);
}

#[test]
fn file_with_no_texels_is_empty() {
    let bytes = sample_header();
    let f = TGAImageFile::from_bytes(&bytes).expect("file parses");
    assert_eq!(f.get_texture(), Vec::<u32>::new());
}

#[test]
fn file_errors_mirror_header_errors() {
    assert!(matches!(
        TGAImageFile::from_bytes(&[0x00, 0x00, 0x05]),
        Err(TGAImageParsingError::UnsupportedEncoding)
    ));
    assert!(matches!(
        TGAImageFile::from_bytes(&[0x00]),
        Err(TGAImageParsingError::UnexpectedEOF)
    ));
}
