use rustiff::bef::num::{DynamicTone, Tone, T16, T8};
use rustiff::bef::val::{BitsPerSample as BefBits, Decodable, Values};
use rustiff::byte::{ByteReader, EndianRead, EndianWrite, SeekExt};
use rustiff::data::{AnyElements, DataType, Entry};
use rustiff::decode::{lzw_finish, DecodeBytes, LZWDecoder, LzwEnd, SimpleDecoder};
use rustiff::error::{IoError, TagErrorKind};
use rustiff::ifd::ImageFileDirectory;
use rustiff::tag::{self, AnyTag, Tag};
use rustiff::val::{Predictor, SamplesPerPixel, StripByteCounts, Value};
use rustiff::encode::Encoded;
use rustiff::{
    BitsPerSample, Compression, DecodeError, DecodeErrorKind, Decoded, Decoder, DecodingError, Endian,
    FileHeaderError, PhotometricInterpretation,
};

fn entry_bytes(order: Endian, tag: u16, ty: u16, count: u32, field: [u8; 4]) -> Vec<u8> {
    let mut b: Vec<u8> = Vec::new();
    b.write_u16(&order, tag).unwrap();
    b.write_u16(&order, ty).unwrap();
    b.write_u32(&order, count).unwrap();
    b.write_4byte(field).unwrap();
    b
}

/// A file with one directory at address 8 holding the given entries, then `tail`.
fn one_ifd(order: Endian, entries: &[Vec<u8>], next: u32, tail: &[u8]) -> Vec<u8> {
    let mut b: Vec<u8> = match order {
        Endian::Little => vec![0x49, 0x49],
        Endian::Big => vec![0x4d, 0x4d],
    };
    b.write_u16(&order, 42).unwrap();
    b.write_u32(&order, 8).unwrap();
    b.write_u16(&order, entries.len() as u16).unwrap();
    for e in entries {
        b.extend_from_slice(e);
    }
    b.write_u32(&order, next).unwrap();
    b.extend_from_slice(tail);
    b
}

fn short_field(order: Endian, n: u16) -> [u8; 4] {
    let mut b: Vec<u8> = Vec::new();
    b.write_u16(&order, n).unwrap();
    [b[0], b[1], 0, 0]
}

fn long_field(order: Endian, n: u32) -> [u8; 4] {
    let mut b: Vec<u8> = Vec::new();
    b.write_u32(&order, n).unwrap();
    [b[0], b[1], b[2], b[3]]
}

#[test]
fn written_numbers_read_back_in_both_orders() {
    for order in [Endian::Big, Endian::Little] {
        let mut b: Vec<u8> = Vec::new();
        b.write_u16(&order, 0x1234).unwrap();
        b.write_u32(&order, 0xdead_beef).unwrap();
        b.write_u8(&order, 7).unwrap();
        let mut r = ByteReader::new(b);
        assert_eq!(r.read_u16(&order).unwrap(), 0x1234);
        assert_eq!(r.read_u32(&order).unwrap(), 0xdead_beef);
        assert_eq!(r.read_u8(&order).unwrap(), 7);
        assert_eq!(r.position(), 7);
    }
}

#[test]
fn byte_orders_lay_out_bytes() {
    let mut big: Vec<u8> = Vec::new();
    big.write_u32(&Endian::Big, 0x0102_0304).unwrap();
    assert_eq!(big, vec![1, 2, 3, 4]);
    let mut little: Vec<u8> = Vec::new();
    little.write_u16(&Endian::Little, 0x0102).unwrap();
    assert_eq!(little, vec![2, 1]);
}

#[test]
fn signed_reads() {
    let mut r = ByteReader::new(vec![0xff, 0xfe, 0xff, 0x80]);
    assert_eq!(r.read_i8(&Endian::Big).unwrap(), -1);
    assert_eq!(r.read_i16(&Endian::Little).unwrap(), -2);
    assert_eq!(r.read_i8(&Endian::Big).unwrap(), -128);
    let mut r = ByteReader::new(vec![0xff, 0xff, 0xff, 0xfe]);
    assert_eq!(r.read_i32(&Endian::Big).unwrap(), -2);
}

#[test]
fn short_read_is_unexpected_eof() {
    let mut r = ByteReader::new(vec![1]);
    assert_eq!(r.read_u16(&Endian::Big), Err(IoError::UnexpectedEof));
    let mut r = ByteReader::new(vec![1, 2, 3]);
    assert_eq!(r.read_u32(&Endian::Little), Err(IoError::UnexpectedEof));
}

#[test]
fn ascii_reads() {
    let mut r = ByteReader::new(vec![b'A', 0xc3]);
    assert_eq!(r.read_ascii().unwrap(), 'A');
    assert_eq!(r.read_ascii(), Err(IoError::InvalidData));
}

#[test]
fn float_bits_read() {
    let mut r = ByteReader::new(1.5f32.to_be_bytes().to_vec());
    assert_eq!(f32::from_bits(r.read_f32_bits(&Endian::Big).unwrap()), 1.5f32);
    let mut r = ByteReader::new((-2.25f64).to_le_bytes().to_vec());
    assert_eq!(f64::from_bits(r.read_f64_bits(&Endian::Little).unwrap()), -2.25f64);
}

#[test]
fn seeking() {
    let mut r = ByteReader::new(vec![0, 1, 2, 3, 4, 5]);
    r.goto(4).unwrap();
    assert_eq!(r.read_u8(&Endian::Big).unwrap(), 4);
    assert_eq!(r.seek_current(-3).unwrap(), 2);
    assert_eq!(r.read_u8(&Endian::Big).unwrap(), 2);
    assert_eq!(r.seek_current(-10), Err(IoError::InvalidInput));
}

#[test]
fn data_type_codes() {
    let all = [
        DataType::Byte,
        DataType::Ascii,
        DataType::Short,
        DataType::Long,
        DataType::Rational,
        DataType::SByte,
        DataType::Undefined,
        DataType::SShort,
        DataType::SLong,
        DataType::SRational,
        DataType::Float,
        DataType::Double,
    ];
    for (i, ty) in all.iter().enumerate() {
        assert_eq!(DataType::try_from(i as u16 + 1).unwrap(), *ty);
    }
    for n in [0u16, 13, 0xffff] {
        match DataType::try_from(n).unwrap_err().into_kind() {
            DecodeErrorKind::UnsupportedDataType(m) => assert_eq!(m, n),
            _ => panic!("wrong error"),
        }
    }
}

#[test]
fn entry_overflow() {
    assert!(!Entry::new(DataType::Byte, 4, [0; 4]).overflow());
    assert!(Entry::new(DataType::Ascii, 5, [0; 4]).overflow());
    assert!(!Entry::new(DataType::Short, 2, [0; 4]).overflow());
    assert!(Entry::new(DataType::SShort, 3, [0; 4]).overflow());
    assert!(!Entry::new(DataType::Long, 1, [0; 4]).overflow());
    assert!(Entry::new(DataType::Float, 2, [0; 4]).overflow());
    assert!(Entry::new(DataType::Rational, 1, [0; 4]).overflow());
    assert!(Entry::new(DataType::Double, 0, [0; 4]).overflow());
}

#[test]
fn tag_ids_round_trip() {
    let tags = [
        (AnyTag::ImageWidth, 256u16),
        (AnyTag::ImageLength, 257),
        (AnyTag::BitsPerSample, 258),
        (AnyTag::Compression, 259),
        (AnyTag::PhotometricInterpretation, 262),
        (AnyTag::StripOffsets, 273),
        (AnyTag::SamplesPerPixel, 277),
        (AnyTag::RowsPerStrip, 278),
        (AnyTag::StripByteCounts, 279),
        (AnyTag::Custom(317), 317),
    ];
    for (t, id) in tags {
        assert_eq!(t.id(), id);
        assert_eq!(AnyTag::from_u16(id), t);
        assert_eq!(AnyTag::from_key(t.key()), t);
    }
    assert_ne!(AnyTag::Custom(256).key(), AnyTag::ImageWidth.key());
    assert_eq!(AnyTag::from_key(AnyTag::Custom(256).key()), AnyTag::Custom(256));
}

#[test]
fn tag_types() {
    assert_eq!(tag::ImageWidth::id(), 256);
    assert_eq!(AnyTag::try_from::<tag::Compression>().unwrap(), AnyTag::Compression);
    assert_eq!(AnyTag::try_from::<tag::Predictor>().unwrap(), AnyTag::Custom(317));
    assert!(AnyTag::ImageLength.eq::<tag::ImageLength>());
    assert!(!AnyTag::ImageLength.eq::<tag::ImageWidth>());
    assert!(AnyTag::Custom(317).eq::<tag::Predictor>());
}

#[test]
fn ifd_read_after_write() {
    let mut ifd = ImageFileDirectory::new();
    let e1 = Entry::new(DataType::Short, 1, [6, 0, 0, 0]);
    let e2 = Entry::new(DataType::Long, 1, [9, 0, 0, 0]);
    assert!(ifd.insert_tag(AnyTag::ImageWidth, e1).is_none());
    assert!(ifd.insert::<tag::ImageLength>(e2).unwrap().is_none());
    assert_eq!(ifd.get_tag(AnyTag::ImageWidth).unwrap().field(), &[6, 0, 0, 0]);
    assert_eq!(ifd.get::<tag::ImageLength>().unwrap().unwrap().ty(), DataType::Long);
    assert!(ifd.get_tag(AnyTag::Compression).is_none());
    let old = ifd.insert_tag(AnyTag::ImageWidth, e2).unwrap();
    assert_eq!(old.field(), &[6, 0, 0, 0]);
    assert_eq!(ifd.get_tag(AnyTag::ImageWidth).unwrap().field(), &[9, 0, 0, 0]);
    assert_eq!(ifd.iter().len(), 2);
    let mut tags = ifd.tags();
    let mut seen = Vec::new();
    while let Some(t) = tags.next() {
        seen.push(t.id());
    }
    seen.sort();
    assert_eq!(seen, vec![256, 257]);
    assert_eq!(ifd.entries().len(), 2);
}

#[test]
fn value_codes_round_trip() {
    for c in [None, Some(Compression::LZW)] {
        let n = <u16 as Encoded<Option<Compression>>>::encoded(c);
        assert_eq!(<Option<Compression> as Decoded>::decoded(vec![n]).unwrap(), c);
    }
    assert_eq!(<u16 as Encoded<Option<Compression>>>::encoded(Some(Compression::LZW)), 5);
    assert!(matches!(
        <Option<Compression> as Decoded>::decoded(vec![2]),
        Err(DecodingError::InvalidValue(_))
    ));
    for n in 0u16..8 {
        let p = PhotometricInterpretation::decoded(vec![n]).unwrap();
        assert_eq!(<u16 as Encoded<PhotometricInterpretation>>::encoded(p), n);
    }
    assert!(PhotometricInterpretation::decoded(vec![8]).is_err());
    assert_eq!(Predictor::decoded(vec![2]).unwrap(), Predictor::Horizontal);
    assert_eq!(<u16 as Encoded<Predictor>>::encoded(Predictor::NoPrediction), 1);
    assert!(Predictor::decoded(vec![3]).is_err());
    assert_eq!(SamplesPerPixel::decoded(vec![3]).unwrap().get(), 3);
    assert!(SamplesPerPixel::decoded(vec![2]).is_err());
}

#[test]
fn bits_per_sample_values() {
    let b = BitsPerSample::decoded(vec![8, 8, 8]).unwrap();
    assert_eq!(b.len(), 3);
    assert_eq!(<Vec<u16> as Encoded<BitsPerSample>>::encoded(b), vec![8, 8, 8]);
    assert!(BitsPerSample::decoded(vec![8, 0, 8, 8]).is_err());
    assert_eq!(BitsPerSample::decoded(vec![16]).unwrap(), BitsPerSample::C1([16]));
    assert!(!BitsPerSample::possible_count(2));
    assert!(StripByteCounts::possible_count(7));
}

#[test]
fn values_as_numbers() {
    assert_eq!(Value::Short(7).as_long(), 7);
    assert_eq!(Value::Long(70000).as_size(), 70000);
    assert_eq!(Values::from_shorts(vec![1, 2]).as_long(), vec![1u32, 2]);
    assert_eq!(Values::from_longs(vec![5, 6]).as_size(), vec![5usize, 6]);
    let doubled = Values::from_shorts(vec![1, 2]).map(|x| x as u64 * 2, |x| x as u64 * 3);
    assert_eq!(doubled, vec![2, 4]);
}

#[test]
fn bef_decoding() {
    assert_eq!(
        <PhotometricInterpretation as Decodable>::decode(5).unwrap(),
        PhotometricInterpretation::CMYK
    );
    match <PhotometricInterpretation as Decodable>::decode(9) {
        Err(DecodingError::UnsupportedValue(v)) => assert_eq!(v, vec![9]),
        _ => panic!("9 names no color space"),
    }
    assert_eq!(<Option<Compression> as Decodable>::decode(5).unwrap(), Some(Compression::LZW));
    assert_eq!(<Predictor as Decodable>::decode(1).unwrap(), Predictor::NoPrediction);
    let b = BefBits::<DynamicTone>::decode(vec![8, 8, 8]).unwrap();
    assert_eq!(b.len(), 3);
    assert_eq!(b.tone().value(), 8);
    match BefBits::<DynamicTone>::decode(vec![8, 16, 8]) {
        Err(DecodingError::UnsupportedValue(v)) => assert_eq!(v, vec![8, 16, 8]),
        _ => panic!("unequal depths are refused"),
    }
    match BefBits::<DynamicTone>::decode(vec![4, 4, 4, 4]) {
        Err(DecodingError::UnsupportedValue(v)) => assert_eq!(v, vec![4]),
        _ => panic!("4 bits are refused"),
    }
    assert_eq!(DynamicTone::from_boxed(Box::new(T16)).value(), 16);
    assert_eq!(T8::from_usize(8).value(), 8);
}

#[test]
fn header_without_address() {
    let err = Decoder::new(vec![0x49, 0x49, 42, 0, 8]).unwrap_err();
    assert!(matches!(err.kind(), DecodeErrorKind::FileHeader(FileHeaderError::NoIFDAddress)));
    assert!(!err.is_io_error());
}

#[test]
fn header_round_trip_with_empty_directory() {
    for order in [Endian::Big, Endian::Little] {
        let bytes = one_ifd(order, &[], 0, &[]);
        let decoder = Decoder::new(bytes).unwrap();
        assert_eq!(*decoder.endian(), order);
        assert_eq!(decoder.ifd().iter().len(), 0);
    }
}

#[test]
fn truncated_directory_is_io_error() {
    let mut bytes = one_ifd(Endian::Little, &[entry_bytes(Endian::Little, 256, 3, 1, [1, 0, 0, 0])], 0, &[]);
    bytes.truncate(14);
    let err = Decoder::new(bytes).unwrap_err();
    assert!(err.is_io_error());
    assert!(matches!(err.into_kind(), DecodeErrorKind::Io(IoError::UnexpectedEof)));
}

#[test]
fn unknown_data_type_is_refused() {
    let order = Endian::Big;
    let bytes = one_ifd(order, &[entry_bytes(order, 256, 13, 1, [0; 4])], 0, &[]);
    match Decoder::new(bytes).unwrap_err().into_kind() {
        DecodeErrorKind::UnsupportedDataType(n) => assert_eq!(n, 13),
        _ => panic!("data type 13 does not exist"),
    }
}

#[test]
fn values_and_defaults() {
    let order = Endian::Big;
    let entries = vec![
        entry_bytes(order, 256, 4, 1, long_field(order, 640)),
        entry_bytes(order, 257, 3, 1, short_field(order, 480)),
        entry_bytes(order, 259, 3, 1, short_field(order, 2)),
    ];
    let mut decoder = Decoder::new(one_ifd(order, &entries, 0, &[])).unwrap();
    assert_eq!(decoder.get_exist_value::<tag::ImageWidth>().unwrap().as_size(), 640);
    assert_eq!(decoder.get_value::<tag::ImageLength>().unwrap().unwrap().as_size(), 480);
    assert!(matches!(decoder.get_value::<tag::Compression>(), Err(DecodingError::InvalidValue(_))));
    assert_eq!(decoder.get_value::<tag::Predictor>().unwrap(), Some(Predictor::NoPrediction));
    assert_eq!(decoder.get_exist_value::<tag::BitsPerSample>().unwrap(), BitsPerSample::C1([1]));
    assert_eq!(
        decoder.get_exist_value::<tag::RowsPerStrip>().unwrap().as_size(),
        u32::MAX as usize
    );
    assert!(decoder.get_value::<tag::StripByteCounts>().unwrap().is_none());
    assert!(matches!(
        decoder.get_exist_value::<tag::StripByteCounts>(),
        Err(DecodingError::NoExistShouldExist)
    ));
    assert!(decoder.get_entry::<tag::ImageWidth>().unwrap().is_some());
}

#[test]
fn wrong_count_and_type_are_refused() {
    let order = Endian::Little;
    let entries = vec![
        entry_bytes(order, 256, 3, 2, [1, 0, 2, 0]),
        entry_bytes(order, 259, 4, 1, long_field(order, 1)),
    ];
    let mut decoder = Decoder::new(one_ifd(order, &entries, 0, &[])).unwrap();
    assert!(matches!(decoder.get_value::<tag::ImageWidth>(), Err(DecodingError::InvalidDataCount(2))));
    assert!(matches!(
        decoder.get_value::<tag::Compression>(),
        Err(DecodingError::InvalidDataType(DataType::Long))
    ));
}

#[test]
fn elements_in_field_and_behind_address() {
    let order = Endian::Little;
    let entries = vec![
        entry_bytes(order, 256, 3, 2, [1, 0, 2, 0]),
        entry_bytes(order, 258, 3, 3, long_field(order, 38)),
        entry_bytes(order, 300, 2, 3, [b'a', b'b', b'c', 0]),
    ];
    // 8 + 2 + 3 * 12 + 4 = 50: the three shorts stand behind the directory.
    let mut bytes = one_ifd(order, &entries, 0, &[]);
    assert_eq!(bytes.len(), 50);
    for n in [8u16, 16, 32] {
        bytes.write_u16(&order, n).unwrap();
    }
    let entries = vec![
        entry_bytes(order, 256, 3, 2, [1, 0, 2, 0]),
        entry_bytes(order, 258, 3, 3, long_field(order, 50)),
        entry_bytes(order, 300, 2, 3, [b'a', b'b', b'c', 0]),
    ];
    let mut fixed = one_ifd(order, &entries, 0, &[]);
    fixed.extend_from_slice(&bytes[50..]);
    let mut decoder = Decoder::new(fixed).unwrap();
    match decoder.get_any_elements(AnyTag::ImageWidth).unwrap() {
        Some(AnyElements::Short(v)) => assert_eq!(v, vec![1, 2]),
        other => panic!("{:?}", other),
    }
    match decoder.get_any_elements(AnyTag::BitsPerSample).unwrap() {
        Some(AnyElements::Short(v)) => assert_eq!(v, vec![8, 16, 32]),
        other => panic!("{:?}", other),
    }
    match decoder.get_any_elements(AnyTag::Custom(300)).unwrap() {
        Some(AnyElements::Ascii(v)) => assert_eq!(v, vec!['a', 'b', 'c']),
        other => panic!("{:?}", other),
    }
    assert!(decoder.get_any_elements(AnyTag::Compression).unwrap().is_none());
    assert_eq!(decoder.get_exist_value::<tag::BitsPerSample>().unwrap(), BitsPerSample::C3([8, 16, 32]));
}

#[test]
fn change_between_directories() {
    let order = Endian::Little;
    // The first directory (one entry) ends at 8 + 2 + 12 + 4 = 26; the second follows.
    let first = vec![entry_bytes(order, 256, 3, 1, short_field(order, 10))];
    let mut bytes = one_ifd(order, &first, 26, &[]);
    assert_eq!(bytes.len(), 26);
    bytes.write_u16(&order, 1).unwrap();
    bytes.extend_from_slice(&entry_bytes(order, 256, 3, 1, short_field(order, 20)));
    bytes.write_u32(&order, 0).unwrap();
    let mut decoder = Decoder::new(bytes).unwrap();
    assert_eq!(decoder.get_exist_value::<tag::ImageWidth>().unwrap().as_size(), 10);
    assert_eq!(decoder.change_ifd(0).unwrap(), true);
    assert_eq!(decoder.change_ifd(1).unwrap(), true);
    assert_eq!(decoder.get_exist_value::<tag::ImageWidth>().unwrap().as_size(), 20);
    // The second directory is the last one: its next address is 0.
    assert_eq!(decoder.change_ifd(2).unwrap(), false);
    assert_eq!(decoder.get_exist_value::<tag::ImageWidth>().unwrap().as_size(), 20);
    assert_eq!(decoder.change_ifd(0).unwrap(), true);
    assert_eq!(decoder.get_exist_value::<tag::ImageWidth>().unwrap().as_size(), 10);
    let mut addrs = decoder.addresses();
    assert_eq!(addrs.next(), Some(8));
    assert_eq!(addrs.next(), Some(26));
    assert_eq!(addrs.next(), None);
    assert_eq!(addrs.next(), None);
}

#[test]
fn change_to_a_far_directory() {
    let order = Endian::Big;
    // Three directories of one entry each, at 8, 26 and 44.
    let mut bytes = one_ifd(order, &[entry_bytes(order, 256, 3, 1, short_field(order, 1))], 26, &[]);
    for (width, next) in [(2u16, 44u32), (3, 0)] {
        bytes.write_u16(&order, 1).unwrap();
        bytes.extend_from_slice(&entry_bytes(order, 256, 3, 1, short_field(order, width)));
        bytes.write_u32(&order, next).unwrap();
    }
    let mut decoder = Decoder::new(bytes).unwrap();
    assert_eq!(decoder.change_ifd(2).unwrap(), true);
    assert_eq!(decoder.get_exist_value::<tag::ImageWidth>().unwrap().as_size(), 3);
    assert_eq!(decoder.change_ifd(1).unwrap(), true);
    assert_eq!(decoder.get_exist_value::<tag::ImageWidth>().unwrap().as_size(), 2);
    assert_eq!(decoder.change_ifd(5).unwrap(), false);
}

#[test]
fn change_past_the_last_directory() {
    let order = Endian::Big;
    let bytes = one_ifd(order, &[], 0, &[]);
    let mut decoder = Decoder::new(bytes).unwrap();
    assert_eq!(decoder.change_ifd(1).unwrap(), false);
    assert_eq!(decoder.change_ifd(3).unwrap(), false);
    assert_eq!(decoder.change_ifd(0).unwrap(), true);
}

#[test]
fn simple_decoder_copies_the_rest() {
    let mut reader = ByteReader::new(vec![1, 2, 3, 4, 5]);
    reader.goto(2).unwrap();
    let mut out = vec![9];
    let n = SimpleDecoder.decode_bytes(&mut reader, &mut out, 3, 3, Predictor::NoPrediction).unwrap();
    assert_eq!(n, 3);
    assert_eq!(out, vec![9, 3, 4, 5]);
}

#[test]
fn lzw_decoder_inflates() {
    let data: Vec<u8> = (0..200u32).map(|i| (i % 7) as u8).collect();
    let compressed = weezl::encode::Encoder::with_tiff_size_switch(weezl::BitOrder::Msb, 8)
        .encode(&data)
        .unwrap();
    let mut source = vec![0xaa];
    source.extend_from_slice(&compressed);
    let mut reader = ByteReader::new(source);
    reader.goto(1).unwrap();
    let mut out = Vec::new();
    let n = LZWDecoder::new()
        .decode_bytes(&mut reader, &mut out, compressed.len(), data.len(), Predictor::NoPrediction)
        .unwrap();
    assert_eq!(n, data.len());
    assert_eq!(out, data);
}

#[test]
fn lzw_decoder_refuses_short_input() {
    let mut reader = ByteReader::new(vec![0x80]);
    let mut out = vec![1];
    let r = LZWDecoder::new().decode_bytes(&mut reader, &mut out, 4, 10, Predictor::NoPrediction);
    assert!(matches!(r, Err(DecodingError::Io(IoError::UnexpectedEof))));
    assert_eq!(out, vec![1]);
}

#[test]
fn errors_carry_their_kind() {
    let e = DecodeError::from_io(IoError::InvalidData);
    assert!(e.is_io_error());
    let e = DecodeError::from_decoding(DecodingError::OverCapacity);
    assert!(matches!(e.kind(), DecodeErrorKind::Decoding(DecodingError::OverCapacity)));
    let t = rustiff::error::TagError::<tag::ImageWidth>::new(TagErrorKind::UnauthorizedTag { tag_id: 1 });
    assert!(matches!(t.into_kind(), TagErrorKind::UnauthorizedTag { tag_id: 1 }));
}

#[test]
fn written_directory_reads_back() {
    let order = Endian::Big;
    let entries = vec![
        entry_bytes(order, 256, 3, 1, [0, 6, 0, 0]),
        entry_bytes(order, 999, 7, 9, [1, 2, 3, 4]),
        entry_bytes(order, 256, 4, 1, [0, 0, 0, 7]),
    ];
    let decoder = Decoder::new(one_ifd(order, &entries, 0, &[0xff; 3])).unwrap();
    let ifd = decoder.ifd();
    assert_eq!(ifd.iter().len(), 2);
    let width = ifd.get_tag(AnyTag::ImageWidth).unwrap();
    assert_eq!(width.ty(), DataType::Long);
    assert_eq!(width.count(), 1);
    assert_eq!(width.field(), &[0, 0, 0, 7]);
    let custom = ifd.get_tag(AnyTag::Custom(999)).unwrap();
    assert_eq!(custom.ty(), DataType::Undefined);
    assert_eq!(custom.count(), 9);
    assert_eq!(custom.field(), &[1, 2, 3, 4]);
}

#[test]
fn lzw_decoder_stops_at_the_limit() {
    let data: Vec<u8> = (0..100u32).map(|i| (i % 5) as u8).collect();
    let compressed = weezl::encode::Encoder::with_tiff_size_switch(weezl::BitOrder::Msb, 8)
        .encode(&data)
        .unwrap();
    let mut reader = ByteReader::new(compressed.clone());
    let mut out = vec![7];
    let n = LZWDecoder::new()
        .decode_bytes(&mut reader, &mut out, compressed.len(), 40, Predictor::NoPrediction)
        .unwrap();
    assert_eq!(n, 40);
    assert_eq!(out[0], 7);
    assert_eq!(&out[1..], &data[..40]);
    // Each call starts a fresh stream, so a second strip decodes as well.
    let mut decoder = LZWDecoder::new();
    for _ in 0..2 {
        let mut reader = ByteReader::new(compressed.clone());
        let mut out = Vec::new();
        let n = decoder
            .decode_bytes(&mut reader, &mut out, compressed.len(), 1000, Predictor::NoPrediction)
            .unwrap();
        assert_eq!(n, 100);
        assert_eq!(out, data);
    }
}

#[test]
fn lzw_decoder_errors() {
    let data: Vec<u8> = (0..100u32).map(|i| (i * 7 % 251) as u8).collect();
    let compressed = weezl::encode::Encoder::with_tiff_size_switch(weezl::BitOrder::Msb, 8)
        .encode(&data)
        .unwrap();
    // Without its end code the stream ends too early.
    let cut = compressed.len() / 2;
    let mut reader = ByteReader::new(compressed[..cut].to_vec());
    let mut out = vec![1];
    let r = LZWDecoder::new().decode_bytes(&mut reader, &mut out, cut, 1000, Predictor::NoPrediction);
    assert!(matches!(r, Err(DecodingError::Io(IoError::UnexpectedEof))));
    assert_eq!(out, vec![1]);
    // A first code of 511 names nothing yet.
    let mut reader = ByteReader::new(vec![0xff, 0xff, 0xff, 0xff]);
    let r = LZWDecoder::new().decode_bytes(&mut reader, &mut out, 4, 1000, Predictor::NoPrediction);
    assert!(matches!(r, Err(DecodingError::Io(IoError::InvalidData))));
    assert_eq!(out, vec![1]);
}

#[test]
fn lzw_finish_cases() {
    let mut w = vec![9];
    assert_eq!(lzw_finish(vec![1, 2, 3], LzwEnd::InvalidCode, 2, &mut w).unwrap(), 2);
    assert_eq!(w, vec![9, 1, 2]);
    assert_eq!(lzw_finish(vec![1, 2, 3], LzwEnd::EndCode, 5, &mut w).unwrap(), 3);
    assert_eq!(w, vec![9, 1, 2, 1, 2, 3]);
    assert!(matches!(
        lzw_finish(vec![1], LzwEnd::InvalidCode, 5, &mut w),
        Err(DecodingError::Io(IoError::InvalidData))
    ));
    assert!(matches!(
        lzw_finish(vec![1], LzwEnd::InputEnded, 5, &mut w),
        Err(DecodingError::Io(IoError::UnexpectedEof))
    ));
    assert_eq!(w.len(), 6);
    assert_eq!(lzw_finish(vec![], LzwEnd::InputEnded, 0, &mut w).unwrap(), 0);
}

#[test]
fn one_value_decoders_take_the_first_element() {
    assert_eq!(PhotometricInterpretation::decoded(vec![5, 9, 9]).unwrap(), PhotometricInterpretation::CMYK);
    assert_eq!(<Option<Compression> as Decoded>::decoded(vec![5, 1]).unwrap(), Some(Compression::LZW));
    assert_eq!(Predictor::decoded(vec![1, 2]).unwrap(), Predictor::NoPrediction);
    assert_eq!(rustiff::val::ImageWidth::decoded(vec![Value::Short(3), Value::Long(4)]).unwrap().as_size(), 3);
    assert_eq!(rustiff::val::StripOffsets::decoded(vec![]).unwrap().len(), 0);
}

#[test]
fn tags_and_entries_walk_in_one_order() {
    let mut ifd = ImageFileDirectory::new();
    for (i, t) in [AnyTag::ImageWidth, AnyTag::Compression, AnyTag::Custom(400), AnyTag::StripOffsets]
        .iter()
        .enumerate()
    {
        ifd.insert_tag(*t, Entry::new(DataType::Short, i + 1, [i as u8; 4]));
    }
    let mut tags = ifd.tags();
    let mut entries = ifd.entries();
    let mut items = ifd.iter();
    assert_eq!(tags.size_hint(), (4, Some(4)));
    while let Some((t, e)) = items.next() {
        assert_eq!(tags.next(), Some(t));
        let f = entries.next().unwrap();
        assert_eq!(f.field(), e.field());
        assert_eq!(ifd.get_tag(t).unwrap().count(), e.count());
    }
    assert_eq!(tags.next(), None);
    assert!(entries.next().is_none());
}

#[test]
fn tones_of_one_depth_are_equal() {
    assert_eq!(BefBits::<DynamicTone>::decode(vec![16, 16, 16, 16]).unwrap(), BefBits::C4(DynamicTone::new(16)));
    assert_eq!(DynamicTone::from_boxed(Box::new(T16)), DynamicTone::new(16));
    assert_eq!(<DynamicTone as Tone>::from_usize(8), DynamicTone::new(8));
    match BefBits::<DynamicTone>::decode(vec![1]) {
        Err(DecodingError::UnsupportedValue(v)) => assert_eq!(v, vec![1]),
        _ => panic!("one bit is refused"),
    }
}
