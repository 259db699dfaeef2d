use vstd::prelude::*;
use crate::bef::num::{DynamicTone, Tone};
use crate::error::DecodingError;
use crate::val::{Compression, PhotometricInterpretation, Predictor, Value};

verus! {

/// Several numbers stored as 16-bit or as 32-bit values.
pub enum Values {
    Shorts(Vec<u16>),
    Longs(Vec<u32>),
}

impl View for Values {
    type V = Seq<nat>;

    /// The numbers.
    open spec fn view(&self) -> Seq<nat> {
        match self {
            Values::Shorts(x) => x@.map_values(|v: u16| v as nat),
            Values::Longs(x) => x@.map_values(|v: u32| v as nat),
        }
    }
}

impl Values {
    /// The numbers as 32-bit values.
    pub fn as_long(self) -> (r: Vec<u32>)
        ensures
            r@.len() == self@.len(),
            forall|i: int| 0 <= i < r@.len() ==> r@[i] == self@[i],
    {
        self.map(|x: u16| -> (y: u32) ensures y == x { x as u32 }, |x: u32| -> (y: u32) ensures y == x { x })
    }

    /// The numbers as sizes.
    pub fn as_size(self) -> (r: Vec<usize>)
        ensures
            r@.len() == self@.len(),
            forall|i: int| 0 <= i < r@.len() ==> r@[i] == self@[i],
    {
        self.map(
            |x: u16| -> (y: usize) ensures y == x { x as usize },
            |x: u32| -> (y: usize) ensures y == x { x as usize },
        )
    }

    /// Applies `shorts_fn` to each 16-bit number, or `longs_fn` to each 32-bit number.
    pub fn map<F1, F2, T>(self, shorts_fn: F1, longs_fn: F2) -> (r: Vec<T>)
        where
            F1: Fn(u16) -> T,
            F2: Fn(u32) -> T,
        requires
            forall|x: u16| call_requires(shorts_fn, (x,)),
            forall|x: u32| call_requires(longs_fn, (x,)),
        ensures
            r@.len() == self@.len(),
            match self {
                Values::Shorts(x) => forall|i: int|
                    0 <= i < x@.len() ==> call_ensures(shorts_fn, (x@[i],), #[trigger] r@[i]),
                Values::Longs(x) => forall|i: int|
                    0 <= i < x@.len() ==> call_ensures(longs_fn, (x@[i],), #[trigger] r@[i]),
            },
    {
        match self {
            Values::Shorts(x) => {
                let mut r: Vec<T> = Vec::new();
                let mut i: usize = 0;
                while i < x.len()
                    invariant
                        i <= x@.len(),
                        r@.len() == i,
                        forall|x: u16| call_requires(shorts_fn, (x,)),
                        forall|j: int| 0 <= j < i ==> call_ensures(shorts_fn, (x@[j],), #[trigger] r@[j]),
                    decreases x@.len() - i,
                {
                    r.push(shorts_fn(x[i]));
                    i = i + 1;
                }
                r
            },
            Values::Longs(x) => {
                let mut r: Vec<T> = Vec::new();
                let mut i: usize = 0;
                while i < x.len()
                    invariant
                        i <= x@.len(),
                        r@.len() == i,
                        forall|x: u32| call_requires(longs_fn, (x,)),
                        forall|j: int| 0 <= j < i ==> call_ensures(longs_fn, (x@[j],), #[trigger] r@[j]),
                    decreases x@.len() - i,
                {
                    r.push(longs_fn(x[i]));
                    i = i + 1;
                }
                r
            },
        }
    }

    pub fn from_shorts(x: Vec<u16>) -> (r: Values)
        ensures
            r == Values::Shorts(x),
    {
        Values::Shorts(x)
    }

    pub fn from_longs(x: Vec<u32>) -> (r: Values)
        ensures
            r == Values::Longs(x),
    {
        Values::Longs(x)
    }
}

impl From<Vec<u16>> for Values {
    fn from(x: Vec<u16>) -> (r: Values) {
        Values::Shorts(x)
    }
}

impl vstd::std_specs::convert::FromSpecImpl<Vec<u16>> for Values {
    open spec fn obeys_from_spec() -> bool {
        true
    }

    open spec fn from_spec(x: Vec<u16>) -> Values {
        Values::Shorts(x)
    }
}

impl From<Vec<u32>> for Values {
    fn from(x: Vec<u32>) -> (r: Values) {
        Values::Longs(x)
    }
}

impl vstd::std_specs::convert::FromSpecImpl<Vec<u32>> for Values {
    open spec fn obeys_from_spec() -> bool {
        true
    }

    open spec fn from_spec(x: Vec<u32>) -> Values {
        Values::Longs(x)
    }
}

/// A fraction of two 32-bit numbers.
pub struct Rational {
    numerator: u32,
    denominator: u32,
}

impl Rational {
    pub closed spec fn spec_numerator(&self) -> u32 {
        self.numerator
    }

    pub closed spec fn spec_denominator(&self) -> u32 {
        self.denominator
    }

    pub fn new(numerator: u32, denominator: u32) -> (r: Self)
        ensures
            r.spec_numerator() == numerator,
            r.spec_denominator() == denominator,
    {
        Rational { numerator, denominator }
    }
}

/// A value with the kind of elements it is stored as.
pub trait Codable {
    type Element;
}

/// A value that is decoded from its stored elements.
pub trait Decodable: Codable + Sized {
    /// Whether `r` is the result of decoding `val`.
    spec fn decodes_to(val: Self::Element, r: Result<Self, DecodingError>) -> bool;

    /// Whether `val` can be decoded at all without a fault.
    spec fn spec_decodable(val: Self::Element) -> bool;

    /// Decodes stored elements.
    ///
    /// # Errors
    ///
    /// `DecodingError::UnsupportedValue`, with the values, for values that name no setting.
    fn decode(val: Self::Element) -> (r: Result<Self, DecodingError>)
        requires
            Self::spec_decodable(val),
        ensures
            Self::decodes_to(val, r),
    ;
}

impl Codable for u8 {
    type Element = u8;
}

impl Decodable for u8 {
    open spec fn decodes_to(val: u8, r: Result<u8, DecodingError>) -> bool {
        r == Ok::<u8, DecodingError>(val)
    }

    open spec fn spec_decodable(val: u8) -> bool {
        true
    }

    fn decode(val: u8) -> (r: Result<Self, DecodingError>) {
        Ok(val)
    }
}

impl Codable for u16 {
    type Element = u16;
}

impl Decodable for u16 {
    open spec fn decodes_to(val: u16, r: Result<u16, DecodingError>) -> bool {
        r == Ok::<u16, DecodingError>(val)
    }

    open spec fn spec_decodable(val: u16) -> bool {
        true
    }

    fn decode(val: u16) -> (r: Result<Self, DecodingError>) {
        Ok(val)
    }
}

impl Codable for u32 {
    type Element = u32;
}

impl Decodable for u32 {
    open spec fn decodes_to(val: u32, r: Result<u32, DecodingError>) -> bool {
        r == Ok::<u32, DecodingError>(val)
    }

    open spec fn spec_decodable(val: u32) -> bool {
        true
    }

    fn decode(val: u32) -> (r: Result<Self, DecodingError>) {
        Ok(val)
    }
}

impl Codable for Vec<u8> {
    type Element = Vec<u8>;
}

impl Decodable for Vec<u8> {
    open spec fn decodes_to(val: Vec<u8>, r: Result<Vec<u8>, DecodingError>) -> bool {
        r matches Ok(v) && v@ == val@
    }

    open spec fn spec_decodable(val: Vec<u8>) -> bool {
        true
    }

    fn decode(val: Vec<u8>) -> (r: Result<Self, DecodingError>) {
        Ok(val)
    }
}

impl Codable for Vec<u16> {
    type Element = Vec<u16>;
}

impl Decodable for Vec<u16> {
    open spec fn decodes_to(val: Vec<u16>, r: Result<Vec<u16>, DecodingError>) -> bool {
        r matches Ok(v) && v@ == val@
    }

    open spec fn spec_decodable(val: Vec<u16>) -> bool {
        true
    }

    fn decode(val: Vec<u16>) -> (r: Result<Self, DecodingError>) {
        Ok(val)
    }
}

impl Codable for Vec<u32> {
    type Element = Vec<u32>;
}

impl Decodable for Vec<u32> {
    open spec fn decodes_to(val: Vec<u32>, r: Result<Vec<u32>, DecodingError>) -> bool {
        r matches Ok(v) && v@ == val@
    }

    open spec fn spec_decodable(val: Vec<u32>) -> bool {
        true
    }

    fn decode(val: Vec<u32>) -> (r: Result<Self, DecodingError>) {
        Ok(val)
    }
}

impl Codable for Value {
    type Element = Value;
}

impl Decodable for Value {
    open spec fn decodes_to(val: Value, r: Result<Value, DecodingError>) -> bool {
        r == Ok::<Value, DecodingError>(val)
    }

    open spec fn spec_decodable(val: Value) -> bool {
        true
    }

    fn decode(val: Value) -> (r: Result<Self, DecodingError>) {
        Ok(val)
    }
}

impl Codable for Values {
    type Element = Values;
}

impl Decodable for Values {
    open spec fn decodes_to(val: Values, r: Result<Values, DecodingError>) -> bool {
        r matches Ok(v) && v@ == val@
    }

    open spec fn spec_decodable(val: Values) -> bool {
        true
    }

    fn decode(val: Values) -> (r: Result<Self, DecodingError>) {
        Ok(val)
    }
}

/// A vector that holds one value.
fn single(n: u16) -> (r: Vec<u16>)
    ensures
        r@ == seq![n],
{
    let mut r: Vec<u16> = Vec::new();
    r.push(n);
    r
}

/// Whether an error reports exactly the given unsupported values.
pub open spec fn unsupported(r: DecodingError, vals: Seq<u16>) -> bool {
    r matches DecodingError::UnsupportedValue(v) && v@ == vals
}

impl Codable for PhotometricInterpretation {
    type Element = u16;
}

impl Decodable for PhotometricInterpretation {
    open spec fn decodes_to(val: u16, r: Result<PhotometricInterpretation, DecodingError>) -> bool {
        match crate::val::photometric_of(val) {
            Ok(p) => r == Ok::<PhotometricInterpretation, DecodingError>(p),
            Err(_) => r matches Err(e) && unsupported(e, seq![val]),
        }
    }

    open spec fn spec_decodable(val: u16) -> bool {
        true
    }

    fn decode(val: u16) -> (r: Result<Self, DecodingError>) {
        match val {
            0 => Ok(PhotometricInterpretation::WhiteIsZero),
            1 => Ok(PhotometricInterpretation::BlackIsZero),
            2 => Ok(PhotometricInterpretation::RGB),
            3 => Ok(PhotometricInterpretation::Palette),
            4 => Ok(PhotometricInterpretation::TransparencyMask),
            5 => Ok(PhotometricInterpretation::CMYK),
            6 => Ok(PhotometricInterpretation::YCbCr),
            7 => Ok(PhotometricInterpretation::CIELab),
            n => Err(DecodingError::UnsupportedValue(single(n))),
        }
    }
}

impl Codable for Option<Compression> {
    type Element = u16;
}

impl Decodable for Option<Compression> {
    open spec fn decodes_to(val: u16, r: Result<Option<Compression>, DecodingError>) -> bool {
        match crate::val::compression_of(val) {
            Ok(c) => r == Ok::<Option<Compression>, DecodingError>(c),
            Err(_) => r matches Err(e) && unsupported(e, seq![val]),
        }
    }

    open spec fn spec_decodable(val: u16) -> bool {
        true
    }

    fn decode(val: u16) -> (r: Result<Self, DecodingError>) {
        match val {
            1 => Ok(None),
            5 => Ok(Some(Compression::LZW)),
            n => Err(DecodingError::UnsupportedValue(single(n))),
        }
    }
}

impl Codable for Predictor {
    type Element = u16;
}

impl Decodable for Predictor {
    open spec fn decodes_to(val: u16, r: Result<Predictor, DecodingError>) -> bool {
        match crate::val::predictor_of(val) {
            Ok(p) => r == Ok::<Predictor, DecodingError>(p),
            Err(_) => r matches Err(e) && unsupported(e, seq![val]),
        }
    }

    open spec fn spec_decodable(val: u16) -> bool {
        true
    }

    fn decode(val: u16) -> (r: Result<Self, DecodingError>) {
        match val {
            1 => Ok(Predictor::NoPrediction),
            2 => Ok(Predictor::Horizontal),
            n => Err(DecodingError::UnsupportedValue(single(n))),
        }
    }
}

/// Bits/Sample: one, three or four samples per pixel, all with the same tone.
#[derive(Debug, Clone, PartialEq, Eq)]
pub enum BitsPerSample<T: Tone> {
    C1(T),
    C3(T),
    C4(T),
}

impl<T: Tone> BitsPerSample<T> {
    /// The number of samples per pixel.
    pub open spec fn spec_len(&self) -> usize {
        match self {
            BitsPerSample::C1(_) => 1,
            BitsPerSample::C3(_) => 3,
            BitsPerSample::C4(_) => 4,
        }
    }

    /// The tone of the samples.
    pub open spec fn spec_tone(&self) -> T {
        match self {
            BitsPerSample::C1(x) => *x,
            BitsPerSample::C3(x) => *x,
            BitsPerSample::C4(x) => *x,
        }
    }

    pub fn len(&self) -> (r: usize)
        ensures
            r == self.spec_len(),
    {
        match self {
            BitsPerSample::C1(_) => 1,
            BitsPerSample::C3(_) => 3,
            BitsPerSample::C4(_) => 4,
        }
    }

    pub fn tone(&self) -> (r: &T)
        ensures
            *r == self.spec_tone(),
    {
        match self {
            BitsPerSample::C1(x) => x,
            BitsPerSample::C3(x) => x,
            BitsPerSample::C4(x) => x,
        }
    }
}

impl<T: Tone> Codable for BitsPerSample<T> {
    type Element = Vec<u16>;
}

/// Whether every element equals the first.
pub open spec fn all_equal(s: Seq<u16>) -> bool {
    forall|i: int| 0 <= i < s.len() ==> #[trigger] s[i] == s[0]
}

impl Decodable for BitsPerSample<DynamicTone> {
    /// One, three or four samples of equal depth, 8 or 16 bits. Unequal depths are
    /// reported all together; an unsupported depth alone.
    open spec fn decodes_to(val: Vec<u16>, r: Result<BitsPerSample<DynamicTone>, DecodingError>) -> bool {
        let s = val@;
        if !all_equal(s) {
            r matches Err(e) && unsupported(e, s)
        } else if s[0] != 8 && s[0] != 16 {
            r matches Err(e) && unsupported(e, seq![s[0]])
        } else {
            r matches Ok(b) && b.spec_len() == s.len() && b.spec_tone().spec_value() == s[0]
        }
    }

    open spec fn spec_decodable(val: Vec<u16>) -> bool {
        val@.len() == 1 || val@.len() == 3 || val@.len() == 4
    }

    fn decode(val: Vec<u16>) -> (r: Result<Self, DecodingError>) {
        let n = val.len();
        if n == 1 {
            let val1 = val[0];
            let tone = if val1 == 8 || val1 == 16 {
                DynamicTone::new(val1 as usize)
            } else {
                return Err(DecodingError::UnsupportedValue(single(val1)));
            };
            Ok(BitsPerSample::C1(tone))
        } else if n == 3 {
            let val1 = val[0];
            let val2 = val[1];
            let val3 = val[2];
            if val1 != val2 || val1 != val3 {
                let v = vec![val1, val2, val3];
                assert(v@ =~= val@);
                return Err(DecodingError::UnsupportedValue(v));
            }
            let tone = if val1 == 8 || val1 == 16 {
                DynamicTone::new(val1 as usize)
            } else {
                return Err(DecodingError::UnsupportedValue(single(val1)));
            };
            Ok(BitsPerSample::C3(tone))
        } else {
            let val1 = val[0];
            let val2 = val[1];
            let val3 = val[2];
            let val4 = val[3];
            if val1 != val2 || val1 != val3 || val1 != val4 {
                let v = vec![val1, val2, val3, val4];
                assert(v@ =~= val@);
                return Err(DecodingError::UnsupportedValue(v));
            }
            let tone = if val1 == 8 || val1 == 16 {
                DynamicTone::new(val1 as usize)
            } else {
                return Err(DecodingError::UnsupportedValue(single(val1)));
            };
            Ok(BitsPerSample::C4(tone))
        }
    }
}

} // verus!
