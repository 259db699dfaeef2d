use rustiff::tag;
use rustiff::val::Value;
use rustiff::{Compression, DecodeErrorKind, Decoder, FileHeaderError, PhotometricInterpretation};

/// A little-endian TIFF file of a 6x4 CMYK image with 8 bits per sample, interleaved
/// (chunky), in one strip, with the given compression code and strip data.
fn cmyk_tiff(compression: u16, strip: &[u8]) -> Vec<u8> {
    let entries: u16 = 9;
    let ifd_len = 2 + 12 * entries as usize + 4;
    let bits_at = 8 + ifd_len;
    let strip_at = bits_at + 8;
    let mut b = vec![0x49, 0x49, 42, 0, 8, 0, 0, 0];
    b.extend_from_slice(&entries.to_le_bytes());
    let mut entry = |b: &mut Vec<u8>, tag: u16, ty: u16, count: u32, field: [u8; 4]| {
        b.extend_from_slice(&tag.to_le_bytes());
        b.extend_from_slice(&ty.to_le_bytes());
        b.extend_from_slice(&count.to_le_bytes());
        b.extend_from_slice(&field);
    };
    let short = |n: u16| {
        let x = n.to_le_bytes();
        [x[0], x[1], 0, 0]
    };
    let long = |n: u32| n.to_le_bytes();
    entry(&mut b, 256, 3, 1, short(6));
    entry(&mut b, 257, 3, 1, short(4));
    entry(&mut b, 258, 3, 4, long(bits_at as u32));
    entry(&mut b, 259, 3, 1, short(compression));
    entry(&mut b, 262, 3, 1, short(5));
    entry(&mut b, 273, 4, 1, long(strip_at as u32));
    entry(&mut b, 277, 3, 1, short(4));
    entry(&mut b, 278, 3, 1, short(4));
    entry(&mut b, 279, 4, 1, long(strip.len() as u32));
    b.extend_from_slice(&[0, 0, 0, 0]);
    assert_eq!(b.len(), bits_at);
    for _ in 0..4 {
        b.extend_from_slice(&8u16.to_le_bytes());
    }
    b.extend_from_slice(strip);
    b
}

fn header_error(bytes: Vec<u8>) -> FileHeaderError {
    let err = Decoder::new(bytes).expect_err("It should be error.");
    match err.into_kind() {
        DecodeErrorKind::FileHeader(e) => e,
        _ => panic!("DecodeError must have source"),
    }
}

#[test]
fn decode_header_byteorder_none() {
    let kind = header_error(vec![0x49]);
    assert_eq!(kind, FileHeaderError::NoByteOrder);
}

#[test]
fn decode_header_byteorder_incorrect() {
    let kind = header_error(vec![0x49, 0x4d, 42, 0, 8, 0, 0, 0]);
    match kind {
        FileHeaderError::InvalidByteOrder { byte_order: _ } => {}
        _ => assert!(false),
    }
}

#[test]
fn decode_header_version_none() {
    let kind = header_error(vec![0x4d, 0x4d, 0]);
    assert_eq!(kind, FileHeaderError::NoVersion);
}

#[test]
fn decode_header_version_incorrect() {
    let kind = header_error(vec![0x4d, 0x4d, 0, 43, 0, 0, 0, 8]);
    match kind {
        FileHeaderError::InvalidVersion { version: _ } => {}
        _ => assert!(false),
    }
}

#[test]
fn decode_image_no_compression() {
    let strip: Vec<u8> = (0..96).map(|i| i as u8).collect();
    let mut decoder = Decoder::new(cmyk_tiff(1, &strip)).expect("No problem as tiff format");

    let width = decoder.get_exist_value::<tag::ImageWidth>().unwrap().as_size();
    let height = decoder.get_exist_value::<tag::ImageLength>().unwrap().as_size();
    let bits_per_sample = decoder.get_exist_value::<tag::BitsPerSample>().unwrap();
    let compression = decoder.get_exist_value::<tag::Compression>().unwrap();
    let photometric = decoder.get_exist_value::<tag::PhotometricInterpretation>().unwrap();
    assert_eq!(width, 6);
    assert_eq!(height, 4);
    assert_eq!(bits_per_sample.len(), 4);
    assert_eq!(compression, None);
    assert_eq!(photometric, PhotometricInterpretation::CMYK);
}

#[test]
fn decode_image_interleave_ibm_lzw_compression() {
    let strip = vec![0x80, 0x01, 0x00];
    let mut decoder = Decoder::new(cmyk_tiff(5, &strip)).expect("No probrem as tiff format");

    let width = decoder.get_exist_value::<tag::ImageWidth>().unwrap().as_size();
    let height = decoder.get_exist_value::<tag::ImageLength>().unwrap().as_size();
    let compression = decoder.get_exist_value::<tag::Compression>().unwrap();
    let photometric = decoder.get_exist_value::<tag::PhotometricInterpretation>().unwrap();
    assert_eq!(width, 6);
    assert_eq!(height, 4);
    assert_eq!(compression, Some(Compression::LZW));
    assert_eq!(photometric, PhotometricInterpretation::CMYK);
    let offsets = decoder.get_exist_value::<tag::StripOffsets>().unwrap();
    assert_eq!(offsets.len(), 1);
    assert!(matches!(offsets[0], Value::Long(_)));
}
