use rustiff::data::{DataType, Entry};
use rustiff::error::TagErrorKind;
use rustiff::ifd::ImageFileDirectory;
use rustiff::tag::{self, AnyTag, Tag};
use rustiff::val;

/// A user's tag that takes the identifier of the image width and claims to be it.
#[derive(Debug)]
struct FakeWidth;

impl Tag for FakeWidth {
    type Value = val::ImageWidth;
    type Elements = val::Value;

    fn spec_id() -> u16 {
        256
    }

    fn spec_default_value() -> Option<val::ImageWidth> {
        None
    }

    fn spec_any_tag() -> AnyTag {
        AnyTag::ImageWidth
    }

    fn id() -> u16 {
        256
    }

    fn default_value() -> Option<val::ImageWidth> {
        None
    }

    fn any_tag() -> AnyTag {
        AnyTag::ImageWidth
    }
}

/// A user's tag with an identifier of its own.
#[derive(Debug)]
struct Artist;

impl Tag for Artist {
    type Value = val::StripOffsets;
    type Elements = Vec<val::Value>;

    fn spec_id() -> u16 {
        315
    }

    fn spec_default_value() -> Option<val::StripOffsets> {
        None
    }

    fn spec_any_tag() -> AnyTag {
        AnyTag::Custom(315)
    }

    fn id() -> u16 {
        315
    }

    fn default_value() -> Option<val::StripOffsets> {
        None
    }

    fn any_tag() -> AnyTag {
        AnyTag::Custom(315)
    }
}

#[test]
fn a_borrowed_identifier_is_refused() {
    match AnyTag::try_from::<FakeWidth>() {
        Err(e) => assert!(matches!(e.into_kind(), TagErrorKind::UnauthorizedTag { tag_id: 256 })),
        Ok(_) => panic!("only the image width's own type has identifier 256"),
    }
    assert!(!AnyTag::ImageWidth.eq::<FakeWidth>());
    assert!(AnyTag::ImageWidth.eq::<tag::ImageWidth>());
    let mut ifd = ImageFileDirectory::new();
    assert!(ifd.insert::<FakeWidth>(Entry::new(DataType::Short, 1, [1, 0, 0, 0])).is_err());
    assert!(ifd.get_tag(AnyTag::ImageWidth).is_none());
    assert!(ifd.get::<FakeWidth>().is_err());
    assert!(ifd.insert::<tag::ImageWidth>(Entry::new(DataType::Short, 1, [1, 0, 0, 0])).is_ok());
    assert!(ifd.get::<FakeWidth>().is_err());
    assert!(ifd.get::<tag::ImageWidth>().unwrap().is_some());
}

#[test]
fn a_custom_identifier_is_accepted() {
    assert_eq!(AnyTag::try_from::<Artist>().unwrap(), AnyTag::Custom(315));
    let mut ifd = ImageFileDirectory::new();
    assert!(ifd.insert::<Artist>(Entry::new(DataType::Long, 1, [9, 0, 0, 0])).unwrap().is_none());
    assert_eq!(ifd.get_tag(AnyTag::Custom(315)).unwrap().count(), 1);
}

#[test]
fn a_decoder_refuses_a_borrowed_identifier() {
    let bytes = vec![0x49, 0x49, 42, 0, 8, 0, 0, 0, 1, 0, 0, 1, 3, 0, 1, 0, 0, 0, 5, 0, 0, 0, 0, 0, 0, 0];
    let mut decoder = rustiff::Decoder::new(bytes).unwrap();
    assert!(decoder.get_entry::<FakeWidth>().is_err());
    match decoder.get_value::<FakeWidth>() {
        Err(rustiff::DecodingError::Tag(TagErrorKind::UnauthorizedTag { tag_id })) => assert_eq!(tag_id, 256),
        _ => panic!("identifier 256 belongs to the image width"),
    }
    assert!(decoder.get_exist_value::<FakeWidth>().is_err());
    assert_eq!(decoder.get_exist_value::<tag::ImageWidth>().unwrap().as_size(), 5);
}
