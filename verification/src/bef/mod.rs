//! A model of sample values with a single bit depth, the tone, shared by all samples.

pub mod num;
pub mod val;
