use vstd::prelude::*;
use crate::decode::Decoded;
use crate::encode::Encoded;
use crate::error::{TagError, TagErrorKind};
use crate::val;

verus! {

/// A tag of an image file directory entry.
///
/// The built-in tags below implement it; a user can implement it for a tag that the
/// library does not know. `any_tag` tells which `AnyTag` the type is: its own variant for
/// a built-in tag, and `AnyTag::Custom(id)` for any other.
pub trait Tag: Sized + 'static {
    type Value: Decoded;
    type Elements: Encoded<Self::Value>;

    /// The identifier. A tag with the identifier of a built-in tag that is not that tag
    /// is refused when it is used.
    spec fn spec_id() -> u16;

    /// The value when the directory has no entry for the tag.
    spec fn spec_default_value() -> Option<Self::Value>;

    /// The `AnyTag` that the type is.
    spec fn spec_any_tag() -> AnyTag;

    fn id() -> (r: u16)
        ensures
            r == Self::spec_id(),
    ;

    fn default_value() -> (r: Option<Self::Value>)
        ensures
            r == Self::spec_default_value(),
    ;

    fn any_tag() -> (r: AnyTag)
        ensures
            r == Self::spec_any_tag(),
    ;
}

/// Tag to get associated value from an image file directory.
#[non_exhaustive]
#[derive(Debug, Clone, Copy, Hash, PartialEq, Eq, Structural)]
pub enum AnyTag {
    ImageWidth,
    ImageLength,
    BitsPerSample,
    Compression,
    PhotometricInterpretation,
    StripOffsets,
    SamplesPerPixel,
    RowsPerStrip,
    StripByteCounts,
    /// A tag that the library does not know, with its identifier.
    Custom(u16),
}

impl AnyTag {
    /// The identifier of the tag.
    pub open spec fn spec_id(self) -> u16 {
        match self {
            AnyTag::ImageWidth => 256,
            AnyTag::ImageLength => 257,
            AnyTag::BitsPerSample => 258,
            AnyTag::Compression => 259,
            AnyTag::PhotometricInterpretation => 262,
            AnyTag::StripOffsets => 273,
            AnyTag::SamplesPerPixel => 277,
            AnyTag::RowsPerStrip => 278,
            AnyTag::StripByteCounts => 279,
            AnyTag::Custom(n) => n,
        }
    }

    /// The tag with the identifier `n`: a built-in tag where one has it, else a custom tag.
    pub open spec fn spec_from_u16(n: u16) -> AnyTag {
        match n {
            256 => AnyTag::ImageWidth,
            257 => AnyTag::ImageLength,
            258 => AnyTag::BitsPerSample,
            259 => AnyTag::Compression,
            262 => AnyTag::PhotometricInterpretation,
            273 => AnyTag::StripOffsets,
            277 => AnyTag::SamplesPerPixel,
            278 => AnyTag::RowsPerStrip,
            279 => AnyTag::StripByteCounts,
            _ => AnyTag::Custom(n),
        }
    }

    /// Whether the tag is the one that its identifier names (a custom tag is not
    /// canonical when its identifier is that of a built-in tag).
    pub open spec fn is_canonical(self) -> bool {
        AnyTag::spec_from_u16(self.spec_id()) == self
    }

    /// A key that tells all tags apart, built-in tags and custom tags alike.
    pub open spec fn spec_key(self) -> u32 {
        match self {
            AnyTag::Custom(n) => (0x10000 + n) as u32,
            _ => self.spec_id() as u32,
        }
    }

    /// The tag of a key.
    pub open spec fn spec_from_key(k: u32) -> AnyTag {
        if k >= 0x10000 {
            AnyTag::Custom((k - 0x10000) as u16)
        } else {
            AnyTag::spec_from_u16(k as u16)
        }
    }

    /// Identifier; the same as `Tag::id` of the tag's type.
    pub fn id(&self) -> (r: u16)
        ensures
            r == self.spec_id(),
    {
        match *self {
            AnyTag::ImageWidth => 256,
            AnyTag::ImageLength => 257,
            AnyTag::BitsPerSample => 258,
            AnyTag::Compression => 259,
            AnyTag::PhotometricInterpretation => 262,
            AnyTag::StripOffsets => 273,
            AnyTag::SamplesPerPixel => 277,
            AnyTag::RowsPerStrip => 278,
            AnyTag::StripByteCounts => 279,
            AnyTag::Custom(n) => n,
        }
    }

    pub fn from_u16(n: u16) -> (r: AnyTag)
        ensures
            r == AnyTag::spec_from_u16(n),
    {
        match n {
            256 => AnyTag::ImageWidth,
            257 => AnyTag::ImageLength,
            258 => AnyTag::BitsPerSample,
            259 => AnyTag::Compression,
            262 => AnyTag::PhotometricInterpretation,
            273 => AnyTag::StripOffsets,
            277 => AnyTag::SamplesPerPixel,
            278 => AnyTag::RowsPerStrip,
            279 => AnyTag::StripByteCounts,
            _ => AnyTag::Custom(n),
        }
    }

    pub fn key(&self) -> (r: u32)
        ensures
            r == self.spec_key(),
    {
        match *self {
            AnyTag::Custom(n) => 0x10000 + n as u32,
            _ => self.id() as u32,
        }
    }

    pub fn from_key(k: u32) -> (r: AnyTag)
        ensures
            r == AnyTag::spec_from_key(k),
    {
        if k >= 0x10000 {
            AnyTag::Custom((k - 0x10000) as u16)
        } else {
            AnyTag::from_u16(k as u16)
        }
    }

    /// Whether this tag is the tag type `T`: for a built-in tag, whether `T` is that tag's
    /// own type; for a custom tag, whether `T` has its identifier. Which type `T` is cannot
    /// be stated here: where a built-in tag is `T`, `T` has its identifier and declares it.
    pub fn eq<T: Tag>(&self) -> (r: bool)
        ensures
            (match *self {
                AnyTag::Custom(n) => r == (n == T::spec_id()),
                _ => r ==> (*self == T::spec_any_tag() && self.spec_id() == T::spec_id()),
            }),
    {
        match *self {
            AnyTag::ImageWidth => same_tag_type::<T, ImageWidth>(),
            AnyTag::ImageLength => same_tag_type::<T, ImageLength>(),
            AnyTag::BitsPerSample => same_tag_type::<T, BitsPerSample>(),
            AnyTag::Compression => same_tag_type::<T, Compression>(),
            AnyTag::PhotometricInterpretation => same_tag_type::<T, PhotometricInterpretation>(),
            AnyTag::StripOffsets => same_tag_type::<T, StripOffsets>(),
            AnyTag::SamplesPerPixel => same_tag_type::<T, SamplesPerPixel>(),
            AnyTag::RowsPerStrip => same_tag_type::<T, RowsPerStrip>(),
            AnyTag::StripByteCounts => same_tag_type::<T, StripByteCounts>(),
            AnyTag::Custom(n) => n == T::id(),
        }
    }

    /// The tag that the tag type `T` stands for.
    ///
    /// # Errors
    ///
    /// `TagErrorKind::UnauthorizedTag` when the identifier of `T` is that of a built-in tag
    /// and `T` is not that tag's own type. A type with a custom identifier is always
    /// accepted; for a built-in identifier, which types are that tag's own cannot be stated
    /// here, and an accepted one declares that tag.
    pub fn try_from<T: Tag>() -> (r: Result<AnyTag, TagError<T>>)
        ensures
            (r matches Ok(t) ==> t == spec_tag_of::<T>() && declares_its_tag::<T>()),
            (r matches Err(e) ==> may_refuse::<T>() && e.spec_kind() == (TagErrorKind::UnauthorizedTag {
                tag_id: T::spec_id(),
            })),
            !may_refuse::<T>() ==> (r is Ok),
    {
        let anytag = AnyTag::from_u16(T::id());
        if anytag.eq::<T>() {
            Ok(anytag)
        } else {
            Err(TagError::new(TagErrorKind::UnauthorizedTag { tag_id: T::id() }))
        }
    }
}

/// The tag that the identifier of `T` names.
pub open spec fn spec_tag_of<T: Tag>() -> AnyTag {
    AnyTag::spec_from_u16(T::spec_id())
}

/// Whether `T` may be refused: its identifier is a built-in tag's, which only that tag's
/// own type may use.
pub open spec fn may_refuse<T: Tag>() -> bool {
    !(spec_tag_of::<T>() is Custom)
}

/// Whether `T` declares the tag its identifier names, as each accepted type does.
pub open spec fn declares_its_tag<T: Tag>() -> bool {
    may_refuse::<T>() ==> T::spec_any_tag() == spec_tag_of::<T>()
}

/// `std::any::TypeId::of` for both types, compared: whether `T` and `U` are one type. Where
/// they are, they are one `Tag` impl, with one identifier and one declared tag; where they
/// are not, nothing is stated.
#[verifier::external_body]
fn same_tag_type<T: Tag, U: Tag>() -> (r: bool)
    ensures
        r ==> T::spec_id() == U::spec_id() && T::spec_any_tag() == U::spec_any_tag(),
{
    std::any::TypeId::of::<T>() == std::any::TypeId::of::<U>()
}

/// The number of columns of the image.
#[derive(Debug, Clone, Copy, PartialEq, Eq)]
pub struct ImageWidth;

impl Tag for ImageWidth {
    type Value = val::ImageWidth;
    type Elements = val::Value;

    open spec fn spec_id() -> u16 {
        256
    }

    open spec fn spec_default_value() -> Option<val::ImageWidth> {
        None
    }

    open spec fn spec_any_tag() -> AnyTag {
        AnyTag::ImageWidth
    }

    fn id() -> (r: u16) {
        256
    }

    fn default_value() -> (r: Option<val::ImageWidth>) {
        None
    }

    fn any_tag() -> (r: AnyTag) {
        AnyTag::ImageWidth
    }
}

/// The number of rows of the image.
#[derive(Debug, Clone, Copy, PartialEq, Eq)]
pub struct ImageLength;

impl Tag for ImageLength {
    type Value = val::ImageLength;
    type Elements = val::Value;

    open spec fn spec_id() -> u16 {
        257
    }

    open spec fn spec_default_value() -> Option<val::ImageLength> {
        None
    }

    open spec fn spec_any_tag() -> AnyTag {
        AnyTag::ImageLength
    }

    fn id() -> (r: u16) {
        257
    }

    fn default_value() -> (r: Option<val::ImageLength>) {
        None
    }

    fn any_tag() -> (r: AnyTag) {
        AnyTag::ImageLength
    }
}

/// The bits of each sample; one bit per sample when absent.
#[derive(Debug, Clone, Copy, PartialEq, Eq)]
pub struct BitsPerSample;

impl Tag for BitsPerSample {
    type Value = val::BitsPerSample;
    type Elements = Vec<u16>;

    open spec fn spec_id() -> u16 {
        258
    }

    open spec fn spec_default_value() -> Option<val::BitsPerSample> {
        Some(val::BitsPerSample::C1([1]))
    }

    open spec fn spec_any_tag() -> AnyTag {
        AnyTag::BitsPerSample
    }

    fn id() -> (r: u16) {
        258
    }

    fn default_value() -> (r: Option<val::BitsPerSample>) {
        Some(val::BitsPerSample::C1([1]))
    }

    fn any_tag() -> (r: AnyTag) {
        AnyTag::BitsPerSample
    }
}

/// The compression scheme; none when absent.
#[derive(Debug, Clone, Copy, PartialEq, Eq)]
pub struct Compression;

impl Tag for Compression {
    type Value = Option<val::Compression>;
    type Elements = u16;

    open spec fn spec_id() -> u16 {
        259
    }

    open spec fn spec_default_value() -> Option<Option<val::Compression>> {
        Some(None)
    }

    open spec fn spec_any_tag() -> AnyTag {
        AnyTag::Compression
    }

    fn id() -> (r: u16) {
        259
    }

    fn default_value() -> (r: Option<Option<val::Compression>>) {
        Some(None)
    }

    fn any_tag() -> (r: AnyTag) {
        AnyTag::Compression
    }
}

/// The color space.
#[derive(Debug, Clone, Copy, PartialEq, Eq)]
pub struct PhotometricInterpretation;

impl Tag for PhotometricInterpretation {
    type Value = val::PhotometricInterpretation;
    type Elements = u16;

    open spec fn spec_id() -> u16 {
        262
    }

    open spec fn spec_default_value() -> Option<val::PhotometricInterpretation> {
        None
    }

    open spec fn spec_any_tag() -> AnyTag {
        AnyTag::PhotometricInterpretation
    }

    fn id() -> (r: u16) {
        262
    }

    fn default_value() -> (r: Option<val::PhotometricInterpretation>) {
        None
    }

    fn any_tag() -> (r: AnyTag) {
        AnyTag::PhotometricInterpretation
    }
}

/// The offset of each strip.
#[derive(Debug, Clone, Copy, PartialEq, Eq)]
pub struct StripOffsets;

impl Tag for StripOffsets {
    type Value = val::StripOffsets;
    type Elements = Vec<val::Value>;

    open spec fn spec_id() -> u16 {
        273
    }

    open spec fn spec_default_value() -> Option<val::StripOffsets> {
        None
    }

    open spec fn spec_any_tag() -> AnyTag {
        AnyTag::StripOffsets
    }

    fn id() -> (r: u16) {
        273
    }

    fn default_value() -> (r: Option<val::StripOffsets>) {
        None
    }

    fn any_tag() -> (r: AnyTag) {
        AnyTag::StripOffsets
    }
}

/// The number of samples of each pixel.
#[derive(Debug, Clone, Copy, PartialEq, Eq)]
pub struct SamplesPerPixel;

impl Tag for SamplesPerPixel {
    type Value = val::SamplesPerPixel;
    type Elements = u16;

    open spec fn spec_id() -> u16 {
        277
    }

    open spec fn spec_default_value() -> Option<val::SamplesPerPixel> {
        None
    }

    open spec fn spec_any_tag() -> AnyTag {
        AnyTag::SamplesPerPixel
    }

    fn id() -> (r: u16) {
        277
    }

    fn default_value() -> (r: Option<val::SamplesPerPixel>) {
        None
    }

    fn any_tag() -> (r: AnyTag) {
        AnyTag::SamplesPerPixel
    }
}

/// The rows of each strip; the whole image when absent.
#[derive(Debug, Clone, Copy, PartialEq, Eq)]
pub struct RowsPerStrip;

impl Tag for RowsPerStrip {
    type Value = val::RowsPerStrip;
    type Elements = val::Value;

    open spec fn spec_id() -> u16 {
        278
    }

    open spec fn spec_default_value() -> Option<val::RowsPerStrip> {
        Some(val::RowsPerStrip::spec_default_value())
    }

    open spec fn spec_any_tag() -> AnyTag {
        AnyTag::RowsPerStrip
    }

    fn id() -> (r: u16) {
        278
    }

    fn default_value() -> (r: Option<val::RowsPerStrip>) {
        Some(val::RowsPerStrip::default_value())
    }

    fn any_tag() -> (r: AnyTag) {
        AnyTag::RowsPerStrip
    }
}

/// The number of bytes of each strip.
#[derive(Debug, Clone, Copy, PartialEq, Eq)]
pub struct StripByteCounts;

impl Tag for StripByteCounts {
    type Value = val::StripByteCounts;
    type Elements = Vec<val::Value>;

    open spec fn spec_id() -> u16 {
        279
    }

    open spec fn spec_default_value() -> Option<val::StripByteCounts> {
        None
    }

    open spec fn spec_any_tag() -> AnyTag {
        AnyTag::StripByteCounts
    }

    fn id() -> (r: u16) {
        279
    }

    fn default_value() -> (r: Option<val::StripByteCounts>) {
        None
    }

    fn any_tag() -> (r: AnyTag) {
        AnyTag::StripByteCounts
    }
}

/// The prediction scheme; none when absent.
#[derive(Debug, Clone, Copy, PartialEq, Eq)]
pub struct Predictor;

impl Tag for Predictor {
    type Value = val::Predictor;
    type Elements = u16;

    open spec fn spec_id() -> u16 {
        317
    }

    open spec fn spec_default_value() -> Option<val::Predictor> {
        Some(val::Predictor::NoPrediction)
    }

    open spec fn spec_any_tag() -> AnyTag {
        AnyTag::Custom(317)
    }

    fn id() -> (r: u16) {
        317
    }

    fn default_value() -> (r: Option<val::Predictor>) {
        Some(val::Predictor::NoPrediction)
    }

    fn any_tag() -> (r: AnyTag) {
        AnyTag::Custom(317)
    }
}

/// Reading the identifier of a tag gives back the tag, for every tag that its
/// identifier names.
pub proof fn lemma_tag_id_round_trip(tag: AnyTag)
    ensures
        tag.is_canonical() <==> AnyTag::spec_from_u16(tag.spec_id()) == tag,
        !(tag is Custom) ==> tag.is_canonical(),
{
}

/// The tag read from an identifier has that identifier.
pub proof fn lemma_from_u16_id(n: u16)
    ensures
        AnyTag::spec_from_u16(n).spec_id() == n,
        AnyTag::spec_from_u16(n).is_canonical(),
{
}

/// Keys tell all tags apart, and each tag is read back from its key.
pub proof fn lemma_key_injective(a: AnyTag, b: AnyTag)
    ensures
        a.spec_key() == b.spec_key() <==> a == b,
        AnyTag::spec_from_key(a.spec_key()) == a,
{
}

} // verus!
