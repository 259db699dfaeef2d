use vstd::prelude::*;

verus! {

/// The bit depth of the samples of an image.
pub trait Tone: Sized {
    /// The number of bits per sample.
    spec fn spec_value(&self) -> usize;

    /// Whether a tone of this kind can have `val` bits.
    spec fn spec_accepts(val: usize) -> bool;

    fn value(&self) -> (r: usize)
        ensures
            r == self.spec_value(),
    ;

    fn from_usize(val: usize) -> (r: Self)
        requires
            Self::spec_accepts(val),
        ensures
            r.spec_value() == val,
    ;
}

/// A tone whose depth is known only at run time.
#[derive(Debug, Clone, Copy, PartialEq, Eq)]
pub struct DynamicTone(usize);

impl DynamicTone {
    pub fn new(val: usize) -> (r: DynamicTone)
        ensures
            r.spec_value() == val,
    {
        DynamicTone(val)
    }

    /// The tone with the depth of another tone.
    pub fn from_boxed<T: Tone>(tone: Box<T>) -> (r: DynamicTone)
        ensures
            r.spec_value() == tone.spec_value(),
    {
        DynamicTone(tone.value())
    }
}

impl Tone for DynamicTone {
    closed spec fn spec_value(&self) -> usize {
        self.0
    }

    open spec fn spec_accepts(val: usize) -> bool {
        true
    }

    fn value(&self) -> (r: usize) {
        self.0
    }

    fn from_usize(val: usize) -> (r: Self) {
        Self(val)
    }
}

/// Two tones known only at run time are the same tone where they have the same depth.
pub proof fn lemma_dynamic_tone_eq(a: DynamicTone, b: DynamicTone)
    ensures
        a.spec_value() == b.spec_value() <==> a == b,
{
}

/// One bit per sample.
#[derive(Debug, Clone, Copy, PartialEq, Eq)]
pub struct T1;

impl Tone for T1 {
    open spec fn spec_value(&self) -> usize {
        1
    }

    open spec fn spec_accepts(val: usize) -> bool {
        val == 1
    }

    fn value(&self) -> (r: usize) {
        1
    }

    fn from_usize(val: usize) -> (r: Self) {
        T1
    }
}

/// Eight bits per sample.
#[derive(Debug, Clone, Copy, PartialEq, Eq)]
pub struct T8;

impl Tone for T8 {
    open spec fn spec_value(&self) -> usize {
        8
    }

    open spec fn spec_accepts(val: usize) -> bool {
        val == 8
    }

    fn value(&self) -> (r: usize) {
        8
    }

    fn from_usize(val: usize) -> (r: Self) {
        T8
    }
}

/// Sixteen bits per sample.
#[derive(Debug, Clone, Copy, PartialEq, Eq)]
pub struct T16;

impl Tone for T16 {
    open spec fn spec_value(&self) -> usize {
        16
    }

    open spec fn spec_accepts(val: usize) -> bool {
        val == 16
    }

    fn value(&self) -> (r: usize) {
        16
    }

    fn from_usize(val: usize) -> (r: Self) {
        T16
    }
}

} // verus!
