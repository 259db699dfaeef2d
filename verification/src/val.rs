use vstd::prelude::*;
use crate::decode::{decoded_as, Decoded};
use crate::element::Element;
use crate::encode::Encoded;
use crate::error::DecodingError;
use std::ops::Deref;

verus! {

/// A number stored as a 16-bit or a 32-bit value.
#[derive(Debug, Clone, Copy, PartialEq, Eq, Structural)]
pub enum Value {
    Short(u16),
    Long(u32),
}

impl View for Value {
    type V = Value;

    open spec fn view(&self) -> Value {
        *self
    }
}

impl Value {
    /// The number as a mathematical integer.
    pub open spec fn spec_number(self) -> nat {
        match self {
            Value::Short(x) => x as nat,
            Value::Long(x) => x as nat,
        }
    }

    pub fn as_long(self) -> (r: u32)
        ensures
            r == self.spec_number(),
    {
        match self {
            Value::Short(x) => x as u32,
            Value::Long(x) => x,
        }
    }

    pub fn as_size(self) -> (r: usize)
        ensures
            r == self.spec_number(),
    {
        match self {
            Value::Short(x) => x as usize,
            Value::Long(x) => x as usize,
        }
    }

    pub fn from_u16(x: u16) -> (r: Value)
        ensures
            r == Value::Short(x),
    {
        Value::Short(x)
    }

    pub fn from_u32(x: u32) -> (r: Value)
        ensures
            r == Value::Long(x),
    {
        Value::Long(x)
    }
}

impl From<u16> for Value {
    fn from(x: u16) -> (r: Value) {
        Value::Short(x)
    }
}

impl vstd::std_specs::convert::FromSpecImpl<u16> for Value {
    open spec fn obeys_from_spec() -> bool {
        true
    }

    open spec fn from_spec(x: u16) -> Value {
        Value::Short(x)
    }
}

impl From<u32> for Value {
    fn from(x: u32) -> (r: Value) {
        Value::Long(x)
    }
}

impl vstd::std_specs::convert::FromSpecImpl<u32> for Value {
    open spec fn obeys_from_spec() -> bool {
        true
    }

    open spec fn from_spec(x: u32) -> Value {
        Value::Long(x)
    }
}

/// The number of columns of the image.
#[derive(Debug, Clone, Copy, PartialEq, Eq)]
pub struct ImageWidth(Value);

impl View for ImageWidth {
    type V = Value;

    closed spec fn view(&self) -> Value {
        self.0
    }
}

impl ImageWidth {
    pub fn new(v: Value) -> (r: Self)
        ensures
            r@ == v,
    {
        ImageWidth(v)
    }

    pub fn as_size(self) -> (r: usize)
        ensures
            r == self@.spec_number(),
    {
        match self.0 {
            Value::Short(x) => x as usize,
            Value::Long(x) => x as usize,
        }
    }
}

impl Decoded for ImageWidth {
    type Element = Value;

    open spec fn spec_possible_count(count: usize) -> bool {
        count == 1
    }

    open spec fn spec_decoded(elements: Seq<Value>) -> Result<Value, DecodingError> {
        Ok(elements[0])
    }

    open spec fn spec_decodable(len: nat) -> bool {
        len >= 1
    }

    proof fn lemma_possible_decodable(count: usize) {
    }

    fn possible_count(count: usize) -> (r: bool) {
        count == 1
    }

    fn decoded(elements: Vec<Value>) -> (r: Result<Self, DecodingError>) {
        let mut elements = elements;
        Ok(Self(elements.remove(0)))
    }
}

impl Encoded<ImageWidth> for Value {
    open spec fn spec_encoded(val: ImageWidth) -> Value {
        val@
    }

    fn encoded(val: ImageWidth) -> (r: Self) {
        val.0
    }
}

/// The number of rows of the image.
#[derive(Debug, Clone, Copy, PartialEq, Eq)]
pub struct ImageLength(Value);

impl View for ImageLength {
    type V = Value;

    closed spec fn view(&self) -> Value {
        self.0
    }
}

impl ImageLength {
    pub fn new(v: Value) -> (r: Self)
        ensures
            r@ == v,
    {
        ImageLength(v)
    }

    pub fn as_size(self) -> (r: usize)
        ensures
            r == self@.spec_number(),
    {
        match self.0 {
            Value::Short(x) => x as usize,
            Value::Long(x) => x as usize,
        }
    }
}

impl Decoded for ImageLength {
    type Element = Value;

    open spec fn spec_possible_count(count: usize) -> bool {
        count == 1
    }

    open spec fn spec_decoded(elements: Seq<Value>) -> Result<Value, DecodingError> {
        Ok(elements[0])
    }

    open spec fn spec_decodable(len: nat) -> bool {
        len >= 1
    }

    proof fn lemma_possible_decodable(count: usize) {
    }

    fn possible_count(count: usize) -> (r: bool) {
        count == 1
    }

    fn decoded(elements: Vec<Value>) -> (r: Result<Self, DecodingError>) {
        let mut elements = elements;
        Ok(Self(elements.remove(0)))
    }
}

impl Encoded<ImageLength> for Value {
    open spec fn spec_encoded(val: ImageLength) -> Value {
        val@
    }

    fn encoded(val: ImageLength) -> (r: Self) {
        val.0
    }
}

/// Bits/Sample
///
/// IFD constructs this with `tag::BitsPerSample`.
#[derive(Debug, Clone, Copy, PartialEq, Eq)]
pub enum BitsPerSample {
    C1([u16; 1]),
    C3([u16; 3]),
    C4([u16; 4]),
}

impl View for BitsPerSample {
    type V = Seq<u16>;

    /// The bits of each sample.
    open spec fn view(&self) -> Seq<u16> {
        match *self {
            BitsPerSample::C1(t) => t@,
            BitsPerSample::C3(t) => t@,
            BitsPerSample::C4(t) => t@,
        }
    }
}

impl BitsPerSample {
    /// The number of samples per pixel.
    pub fn len(&self) -> (r: usize)
        ensures
            r == self@.len(),
    {
        match self {
            BitsPerSample::C1(_) => 1,
            BitsPerSample::C3(_) => 3,
            BitsPerSample::C4(_) => 4,
        }
    }
}

/// Whether no element is zero.
pub open spec fn all_nonzero(s: Seq<u16>) -> bool {
    forall|i: int| 0 <= i < s.len() ==> s[i] != 0
}

impl Decoded for BitsPerSample {
    type Element = u16;

    open spec fn spec_possible_count(count: usize) -> bool {
        count == 1 || count == 3 || count == 4
    }

    /// The bits of each of one, three or four samples; a zero is refused.
    open spec fn spec_decoded(elements: Seq<u16>) -> Result<Seq<u16>, DecodingError> {
        if all_nonzero(elements) {
            Ok(elements)
        } else {
            Err(DecodingError::InvalidValue(Element::U16(0)))
        }
    }

    open spec fn spec_decodable(len: nat) -> bool {
        len == 1 || len == 3 || len == 4
    }

    proof fn lemma_possible_decodable(count: usize) {
    }

    fn possible_count(count: usize) -> (r: bool) {
        count == 1 || count == 3 || count == 4
    }

    fn decoded(elements: Vec<u16>) -> (r: Result<Self, DecodingError>) {
        match elements.len() {
            1 => {
                let a = elements[0];
                if a == 0 {
                    Err(DecodingError::InvalidValue(Element::U16(0)))
                } else {
                    let t = [a];
                    assert(t@ =~= elements@);
                    Ok(BitsPerSample::C1(t))
                }
            },
            3 => {
                let a = elements[0];
                let b = elements[1];
                let c = elements[2];
                if a == 0 || b == 0 || c == 0 {
                    Err(DecodingError::InvalidValue(Element::U16(0)))
                } else {
                    let t = [a, b, c];
                    assert(t@ =~= elements@);
                    Ok(BitsPerSample::C3(t))
                }
            },
            _ => {
                let a = elements[0];
                let b = elements[1];
                let c = elements[2];
                let d = elements[3];
                if a == 0 || b == 0 || c == 0 || d == 0 {
                    Err(DecodingError::InvalidValue(Element::U16(0)))
                } else {
                    let t = [a, b, c, d];
                    assert(t@ =~= elements@);
                    Ok(BitsPerSample::C4(t))
                }
            },
        }
    }
}

impl Encoded<BitsPerSample> for Vec<u16> {
    open spec fn spec_encoded(val: BitsPerSample) -> Seq<u16> {
        val@
    }

    fn encoded(val: BitsPerSample) -> (r: Self) {
        let r = match val {
            BitsPerSample::C1(t) => vec![t[0]],
            BitsPerSample::C3(t) => vec![t[0], t[1], t[2]],
            BitsPerSample::C4(t) => vec![t[0], t[1], t[2], t[3]],
        };
        assert(r@ =~= val@);
        r
    }
}

/// Compression scheme used on the image data.
///
/// IFD constructs this with `tag::Compression`.
#[non_exhaustive]
#[derive(Debug, Clone, Copy, PartialEq, Eq, Structural)]
pub enum Compression {
    /// LZW compression
    LZW,
}

impl View for Compression {
    type V = Compression;

    open spec fn view(&self) -> Compression {
        *self
    }
}

/// The compression that a stored code names: 1 for none, 5 for LZW.
pub open spec fn compression_of(n: u16) -> Result<Option<Compression>, DecodingError> {
    match n {
        1 => Ok(None),
        5 => Ok(Some(Compression::LZW)),
        n => Err(DecodingError::InvalidValue(Element::U16(n))),
    }
}

impl Decoded for Option<Compression> {
    type Element = u16;

    open spec fn spec_possible_count(count: usize) -> bool {
        count == 1
    }

    open spec fn spec_decoded(elements: Seq<u16>) -> Result<Option<Compression>, DecodingError> {
        compression_of(elements[0])
    }

    open spec fn spec_decodable(len: nat) -> bool {
        len >= 1
    }

    proof fn lemma_possible_decodable(count: usize) {
    }

    fn possible_count(count: usize) -> (r: bool) {
        count == 1
    }

    fn decoded(elements: Vec<u16>) -> (r: Result<Self, DecodingError>) {
        let mut elements = elements;
        let val = elements.remove(0);
        match val {
            1 => Ok(None),
            5 => Ok(Some(Compression::LZW)),
            n => Err(DecodingError::InvalidValue(Element::U16(n))),
        }
    }
}

impl Encoded<Option<Compression>> for u16 {
    open spec fn spec_encoded(val: Option<Compression>) -> u16 {
        match val {
            None => 1,
            Some(Compression::LZW) => 5,
        }
    }

    fn encoded(val: Option<Compression>) -> (r: Self) {
        match val {
            None => 1,
            Some(Compression::LZW) => 5,
        }
    }
}

/// The color space of the image data.
///
/// IFD constructs this with `tag::PhotometricInterpretation`.
#[non_exhaustive]
#[derive(Debug, Clone, Copy, PartialEq, Eq, Structural)]
pub enum PhotometricInterpretation {
    /// For bilevel and grayscale images: 0 is imaged as white.
    WhiteIsZero,
    /// For bilevel and grayscale images: 0 is imaged as black.
    BlackIsZero,
    /// RGB color space.
    RGB,
    /// RGB color space through a lookup table (`ColorMap`); one sample per pixel.
    Palette,
    /// An irregularly shaped region of another image in the same file; one sample per pixel
    /// and one bit per sample.
    TransparencyMask,
    /// CMYK color space; (0,0,0,0) represents white.
    CMYK,
    YCbCr,
    CIELab,
}

impl View for PhotometricInterpretation {
    type V = PhotometricInterpretation;

    open spec fn view(&self) -> PhotometricInterpretation {
        *self
    }
}

/// The color space that a stored code names: the codes 0 to 7.
pub open spec fn photometric_of(n: u16) -> Result<PhotometricInterpretation, DecodingError> {
    match n {
        0 => Ok(PhotometricInterpretation::WhiteIsZero),
        1 => Ok(PhotometricInterpretation::BlackIsZero),
        2 => Ok(PhotometricInterpretation::RGB),
        3 => Ok(PhotometricInterpretation::Palette),
        4 => Ok(PhotometricInterpretation::TransparencyMask),
        5 => Ok(PhotometricInterpretation::CMYK),
        6 => Ok(PhotometricInterpretation::YCbCr),
        7 => Ok(PhotometricInterpretation::CIELab),
        n => Err(DecodingError::InvalidValue(Element::U16(n))),
    }
}

impl Decoded for PhotometricInterpretation {
    type Element = u16;

    open spec fn spec_possible_count(count: usize) -> bool {
        count == 1
    }

    open spec fn spec_decoded(elements: Seq<u16>) -> Result<PhotometricInterpretation, DecodingError> {
        photometric_of(elements[0])
    }

    open spec fn spec_decodable(len: nat) -> bool {
        len >= 1
    }

    proof fn lemma_possible_decodable(count: usize) {
    }

    fn possible_count(count: usize) -> (r: bool) {
        count == 1
    }

    fn decoded(elements: Vec<u16>) -> (r: Result<Self, DecodingError>) {
        match elements[0] {
            0 => Ok(PhotometricInterpretation::WhiteIsZero),
            1 => Ok(PhotometricInterpretation::BlackIsZero),
            2 => Ok(PhotometricInterpretation::RGB),
            3 => Ok(PhotometricInterpretation::Palette),
            4 => Ok(PhotometricInterpretation::TransparencyMask),
            5 => Ok(PhotometricInterpretation::CMYK),
            6 => Ok(PhotometricInterpretation::YCbCr),
            7 => Ok(PhotometricInterpretation::CIELab),
            n => Err(DecodingError::InvalidValue(Element::U16(n))),
        }
    }
}

impl Encoded<PhotometricInterpretation> for u16 {
    open spec fn spec_encoded(val: PhotometricInterpretation) -> u16 {
        match val {
            PhotometricInterpretation::WhiteIsZero => 0,
            PhotometricInterpretation::BlackIsZero => 1,
            PhotometricInterpretation::RGB => 2,
            PhotometricInterpretation::Palette => 3,
            PhotometricInterpretation::TransparencyMask => 4,
            PhotometricInterpretation::CMYK => 5,
            PhotometricInterpretation::YCbCr => 6,
            PhotometricInterpretation::CIELab => 7,
        }
    }

    fn encoded(val: PhotometricInterpretation) -> (r: Self) {
        match val {
            PhotometricInterpretation::WhiteIsZero => 0,
            PhotometricInterpretation::BlackIsZero => 1,
            PhotometricInterpretation::RGB => 2,
            PhotometricInterpretation::Palette => 3,
            PhotometricInterpretation::TransparencyMask => 4,
            PhotometricInterpretation::CMYK => 5,
            PhotometricInterpretation::YCbCr => 6,
            PhotometricInterpretation::CIELab => 7,
        }
    }
}

/// The offset of each strip of the image.
#[derive(Debug)]
pub struct StripOffsets(Vec<Value>);

impl View for StripOffsets {
    type V = Seq<Value>;

    closed spec fn view(&self) -> Seq<Value> {
        self.0@
    }
}

impl StripOffsets {
    pub fn new(offsets: Vec<Value>) -> (r: Self)
        ensures
            r@ == offsets@,
    {
        StripOffsets(offsets)
    }
}

impl Deref for StripOffsets {
    type Target = Vec<Value>;

    fn deref(&self) -> (r: &Vec<Value>)
        ensures
            r@ == self@,
    {
        &self.0
    }
}

impl Decoded for StripOffsets {
    type Element = Value;

    open spec fn spec_possible_count(count: usize) -> bool {
        count >= 1
    }

    open spec fn spec_decoded(elements: Seq<Value>) -> Result<Seq<Value>, DecodingError> {
        Ok(elements)
    }

    open spec fn spec_decodable(len: nat) -> bool {
        true
    }

    proof fn lemma_possible_decodable(count: usize) {
    }

    fn possible_count(count: usize) -> (r: bool) {
        count >= 1
    }

    fn decoded(elements: Vec<Value>) -> (r: Result<Self, DecodingError>) {
        Ok(StripOffsets(elements))
    }
}

impl Encoded<StripOffsets> for Vec<Value> {
    open spec fn spec_encoded(val: StripOffsets) -> Seq<Value> {
        val@
    }

    fn encoded(val: StripOffsets) -> (r: Self) {
        val.0
    }
}

/// The number of samples of each pixel.
#[derive(Debug)]
pub struct SamplesPerPixel(u16);

impl View for SamplesPerPixel {
    type V = u16;

    closed spec fn view(&self) -> u16 {
        self.0
    }
}

impl Deref for SamplesPerPixel {
    type Target = u16;

    fn deref(&self) -> (r: &u16)
        ensures
            *r == self@,
    {
        &self.0
    }
}

impl SamplesPerPixel {
    pub fn get(&self) -> (r: u16)
        ensures
            r == self@,
    {
        self.0
    }
}

/// The samples per pixel that a stored number names: 1, 3 or 4.
pub open spec fn samples_per_pixel_of(n: u16) -> Result<u16, DecodingError> {
    if n == 1 || n == 3 || n == 4 {
        Ok(n)
    } else {
        Err(DecodingError::InvalidValue(Element::U16(n)))
    }
}

impl Decoded for SamplesPerPixel {
    type Element = u16;

    open spec fn spec_possible_count(count: usize) -> bool {
        count == 1
    }

    open spec fn spec_decoded(elements: Seq<u16>) -> Result<u16, DecodingError> {
        samples_per_pixel_of(elements[0])
    }

    open spec fn spec_decodable(len: nat) -> bool {
        len >= 1
    }

    proof fn lemma_possible_decodable(count: usize) {
    }

    fn possible_count(count: usize) -> (r: bool) {
        count == 1
    }

    fn decoded(elements: Vec<u16>) -> (r: Result<Self, DecodingError>) {
        let mut elements = elements;
        let val = elements.remove(0);
        match val {
            1 | 3 | 4 => Ok(SamplesPerPixel(val)),
            n => Err(DecodingError::InvalidValue(Element::U16(n))),
        }
    }
}

impl Encoded<SamplesPerPixel> for u16 {
    open spec fn spec_encoded(val: SamplesPerPixel) -> u16 {
        val@
    }

    fn encoded(val: SamplesPerPixel) -> (r: Self) {
        val.0
    }
}

/// The number of rows of each strip.
#[derive(Debug)]
pub struct RowsPerStrip(Value);

impl View for RowsPerStrip {
    type V = Value;

    closed spec fn view(&self) -> Value {
        self.0
    }
}

impl RowsPerStrip {
    pub fn new(v: Value) -> (r: Self)
        ensures
            r@ == v,
    {
        RowsPerStrip(v)
    }

    pub fn as_size(self) -> (r: usize)
        ensures
            r == self@.spec_number(),
    {
        match self.0 {
            Value::Short(x) => x as usize,
            Value::Long(x) => x as usize,
        }
    }

    pub closed spec fn spec_default_value() -> RowsPerStrip {
        RowsPerStrip(Value::Long(u32::MAX))
    }

    /// The rows per strip when the directory has none: one strip for the whole image.
    pub fn default_value() -> (r: Self)
        ensures
            r == Self::spec_default_value(),
            r@ == Value::Long(u32::MAX),
    {
        RowsPerStrip(Value::Long(u32::MAX))
    }
}

impl Decoded for RowsPerStrip {
    type Element = Value;

    open spec fn spec_possible_count(count: usize) -> bool {
        count == 1
    }

    open spec fn spec_decoded(elements: Seq<Value>) -> Result<Value, DecodingError> {
        Ok(elements[0])
    }

    open spec fn spec_decodable(len: nat) -> bool {
        len >= 1
    }

    proof fn lemma_possible_decodable(count: usize) {
    }

    fn possible_count(count: usize) -> (r: bool) {
        count == 1
    }

    fn decoded(elements: Vec<Value>) -> (r: Result<Self, DecodingError>) {
        let mut elements = elements;
        Ok(RowsPerStrip(elements.remove(0)))
    }
}

impl Encoded<RowsPerStrip> for Value {
    open spec fn spec_encoded(val: RowsPerStrip) -> Value {
        val@
    }

    fn encoded(val: RowsPerStrip) -> (r: Self) {
        val.0
    }
}

/// The number of bytes of each strip, after compression.
#[derive(Debug)]
pub struct StripByteCounts(Vec<Value>);

impl View for StripByteCounts {
    type V = Seq<Value>;

    closed spec fn view(&self) -> Seq<Value> {
        self.0@
    }
}

impl StripByteCounts {
    pub fn new(counts: Vec<Value>) -> (r: Self)
        ensures
            r@ == counts@,
    {
        StripByteCounts(counts)
    }
}

impl Deref for StripByteCounts {
    type Target = Vec<Value>;

    fn deref(&self) -> (r: &Vec<Value>)
        ensures
            r@ == self@,
    {
        &self.0
    }
}

impl Decoded for StripByteCounts {
    type Element = Value;

    open spec fn spec_possible_count(count: usize) -> bool {
        count >= 1
    }

    open spec fn spec_decoded(elements: Seq<Value>) -> Result<Seq<Value>, DecodingError> {
        Ok(elements)
    }

    open spec fn spec_decodable(len: nat) -> bool {
        true
    }

    proof fn lemma_possible_decodable(count: usize) {
    }

    fn possible_count(count: usize) -> (r: bool) {
        count >= 1
    }

    fn decoded(elements: Vec<Value>) -> (r: Result<Self, DecodingError>) {
        Ok(StripByteCounts(elements))
    }
}

impl Encoded<StripByteCounts> for Vec<Value> {
    open spec fn spec_encoded(val: StripByteCounts) -> Seq<Value> {
        val@
    }

    fn encoded(val: StripByteCounts) -> (r: Self) {
        val.0
    }
}

/// Difference from the previous pixel
///
/// IFD constructs this with `tag::Predictor`.
#[derive(Debug, Clone, Copy, PartialEq, Eq, Structural)]
pub enum Predictor {
    /// No prediction scheme.
    NoPrediction,
    Horizontal,
}

impl View for Predictor {
    type V = Predictor;

    open spec fn view(&self) -> Predictor {
        *self
    }
}

/// The predictor that a stored code names: 1 for none, 2 for horizontal differencing.
pub open spec fn predictor_of(n: u16) -> Result<Predictor, DecodingError> {
    match n {
        1 => Ok(Predictor::NoPrediction),
        2 => Ok(Predictor::Horizontal),
        n => Err(DecodingError::InvalidValue(Element::U16(n))),
    }
}

impl Decoded for Predictor {
    type Element = u16;

    open spec fn spec_possible_count(count: usize) -> bool {
        count == 1
    }

    open spec fn spec_decoded(elements: Seq<u16>) -> Result<Predictor, DecodingError> {
        predictor_of(elements[0])
    }

    open spec fn spec_decodable(len: nat) -> bool {
        len >= 1
    }

    proof fn lemma_possible_decodable(count: usize) {
    }

    fn possible_count(count: usize) -> (r: bool) {
        count == 1
    }

    fn decoded(elements: Vec<u16>) -> (r: Result<Self, DecodingError>) {
        let mut elements = elements;
        let val = elements.remove(0);
        match val {
            1 => Ok(Predictor::NoPrediction),
            2 => Ok(Predictor::Horizontal),
            n => Err(DecodingError::InvalidValue(Element::U16(n))),
        }
    }
}

impl Encoded<Predictor> for u16 {
    open spec fn spec_encoded(val: Predictor) -> u16 {
        match val {
            Predictor::NoPrediction => 1,
            Predictor::Horizontal => 2,
        }
    }

    fn encoded(val: Predictor) -> (r: Self) {
        match val {
            Predictor::NoPrediction => 1,
            Predictor::Horizontal => 2,
        }
    }
}

/// Decoding the number that a width encodes to gives the width back.
pub proof fn lemma_image_width_round_trip(w: ImageWidth)
    ensures
        ImageWidth::spec_decoded(seq![<Value as Encoded<ImageWidth>>::spec_encoded(w)])
            == Ok::<Value, DecodingError>(w@),
{
}

/// Decoding the number that a length encodes to gives the length back.
pub proof fn lemma_image_length_round_trip(l: ImageLength)
    ensures
        ImageLength::spec_decoded(seq![<Value as Encoded<ImageLength>>::spec_encoded(l)])
            == Ok::<Value, DecodingError>(l@),
{
}

/// Decoding the number that a strip height encodes to gives the strip height back.
pub proof fn lemma_rows_per_strip_round_trip(r: RowsPerStrip)
    ensures
        RowsPerStrip::spec_decoded(seq![<Value as Encoded<RowsPerStrip>>::spec_encoded(r)])
            == Ok::<Value, DecodingError>(r@),
{
}

/// Decoding the numbers that strip offsets encode to gives the offsets back.
pub proof fn lemma_strip_offsets_round_trip(o: StripOffsets)
    ensures
        StripOffsets::spec_decoded(<Vec<Value> as Encoded<StripOffsets>>::spec_encoded(o))
            == Ok::<Seq<Value>, DecodingError>(o@),
{
}

/// Decoding the numbers that strip byte counts encode to gives the counts back.
pub proof fn lemma_strip_byte_counts_round_trip(c: StripByteCounts)
    ensures
        StripByteCounts::spec_decoded(<Vec<Value> as Encoded<StripByteCounts>>::spec_encoded(c))
            == Ok::<Seq<Value>, DecodingError>(c@),
{
}

/// Decoding the numbers that bits per sample encode to gives them back, when no sample
/// has zero bits (a zero is refused by decoding).
pub proof fn lemma_bits_per_sample_round_trip(b: BitsPerSample)
    requires
        all_nonzero(b@),
    ensures
        BitsPerSample::spec_decoded(<Vec<u16> as Encoded<BitsPerSample>>::spec_encoded(b))
            == Ok::<Seq<u16>, DecodingError>(b@),
{
}

/// Each value's stored form has a count that an entry of its tag may have: one number
/// for the one-number values, one, three or four for bits per sample (as many as the
/// value has samples), and any positive number for strip offsets and byte counts.
pub proof fn lemma_encoded_counts_possible(b: BitsPerSample, n: usize)
    ensures
        BitsPerSample::spec_possible_count(<Vec<u16> as Encoded<BitsPerSample>>::spec_encoded(b).len() as usize),
        b@.len() == match b {
            BitsPerSample::C1(_) => 1nat,
            BitsPerSample::C3(_) => 3nat,
            BitsPerSample::C4(_) => 4nat,
        },
        ImageWidth::spec_possible_count(1),
        ImageLength::spec_possible_count(1),
        <Option<Compression> as Decoded>::spec_possible_count(1),
        PhotometricInterpretation::spec_possible_count(1),
        SamplesPerPixel::spec_possible_count(1),
        RowsPerStrip::spec_possible_count(1),
        Predictor::spec_possible_count(1),
        n >= 1 ==> StripOffsets::spec_possible_count(n) && StripByteCounts::spec_possible_count(n),
{
}

/// The color spaces of TIFF in the order of their codes, from 0 on.
pub open spec fn photometric_table() -> Seq<PhotometricInterpretation> {
    seq![
        PhotometricInterpretation::WhiteIsZero,
        PhotometricInterpretation::BlackIsZero,
        PhotometricInterpretation::RGB,
        PhotometricInterpretation::Palette,
        PhotometricInterpretation::TransparencyMask,
        PhotometricInterpretation::CMYK,
        PhotometricInterpretation::YCbCr,
        PhotometricInterpretation::CIELab,
    ]
}

/// The color space codes are TIFF's: the code of each color space is its place in
/// `photometric_table` (0 white is zero, 1 black is zero, 2 RGB, 3 palette, 4 transparency
/// mask, 5 CMYK, 6 YCbCr, 7 CIELab); decoding gives that color space for each of these
/// codes and refuses every other code.
pub proof fn lemma_photometric_codes(n: u16)
    ensures
        n < 8 ==> photometric_of(n) == Ok::<PhotometricInterpretation, DecodingError>(photometric_table()[n as int]),
        n >= 8 ==> photometric_of(n) is Err,
        n < 8 ==> <u16 as Encoded<PhotometricInterpretation>>::spec_encoded(photometric_table()[n as int]) == n,
{
}

/// The compression codes are TIFF's: 1 for none and 5 for LZW, in both directions; every
/// other code is refused.
pub proof fn lemma_compression_codes(n: u16)
    ensures
        compression_of(1) == Ok::<Option<Compression>, DecodingError>(None),
        compression_of(5) == Ok::<Option<Compression>, DecodingError>(Some(Compression::LZW)),
        n != 1 && n != 5 ==> compression_of(n) is Err,
        <u16 as Encoded<Option<Compression>>>::spec_encoded(None) == 1,
        <u16 as Encoded<Option<Compression>>>::spec_encoded(Some(Compression::LZW)) == 5,
{
}

/// The predictor codes are TIFF's: 1 for none and 2 for horizontal differencing, in both
/// directions; every other code is refused.
pub proof fn lemma_predictor_codes(n: u16)
    ensures
        predictor_of(1) == Ok::<Predictor, DecodingError>(Predictor::NoPrediction),
        predictor_of(2) == Ok::<Predictor, DecodingError>(Predictor::Horizontal),
        n != 1 && n != 2 ==> predictor_of(n) is Err,
        <u16 as Encoded<Predictor>>::spec_encoded(Predictor::NoPrediction) == 1,
        <u16 as Encoded<Predictor>>::spec_encoded(Predictor::Horizontal) == 2,
{
}

/// Decoding the code that a compression setting encodes to gives the setting back, and
/// every code that decodes is the code of what it decodes to.
pub proof fn lemma_compression_round_trip(c: Option<Compression>, n: u16)
    ensures
        compression_of(<u16 as Encoded<Option<Compression>>>::spec_encoded(c))
            == Ok::<Option<Compression>, DecodingError>(c),
        compression_of(n) matches Ok(d) ==> <u16 as Encoded<Option<Compression>>>::spec_encoded(d) == n,
{
    match c {
        None => {},
        Some(x) => {
            assert(x == Compression::LZW);
        },
    }
}

/// Decoding the code that a color space encodes to gives the color space back, and
/// every code that decodes is the code of what it decodes to.
pub proof fn lemma_photometric_round_trip(p: PhotometricInterpretation, n: u16)
    ensures
        photometric_of(<u16 as Encoded<PhotometricInterpretation>>::spec_encoded(p))
            == Ok::<PhotometricInterpretation, DecodingError>(p),
        photometric_of(n) matches Ok(q) ==> <u16 as Encoded<PhotometricInterpretation>>::spec_encoded(q) == n,
{
}

/// Decoding the code that a predictor encodes to gives the predictor back, and every
/// code that decodes is the code of what it decodes to.
pub proof fn lemma_predictor_round_trip(p: Predictor, n: u16)
    ensures
        predictor_of(<u16 as Encoded<Predictor>>::spec_encoded(p)) == Ok::<Predictor, DecodingError>(p),
        predictor_of(n) matches Ok(q) ==> <u16 as Encoded<Predictor>>::spec_encoded(q) == n,
{
}

/// A stored samples-per-pixel number that decodes encodes back to itself.
pub proof fn lemma_samples_per_pixel_round_trip(n: u16)
    ensures
        samples_per_pixel_of(n) matches Ok(m) ==> m == n && samples_per_pixel_of(m) == Ok::<u16, DecodingError>(m),
{
}

} // verus!
