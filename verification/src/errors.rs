//! Error taxonomy of the packaging pipeline.

use vstd::prelude::*;

verus! {

/// Codec-layer failure: the container's magic tag did not match (the variant
/// carries the value that was actually found), the data ran short of the
/// declared size, or the compressed stream itself is damaged.
#[derive(Debug, Clone, Copy, PartialEq, Eq)]
pub enum FormatError {
    BadMagic(u32),
    Truncated,
    CorruptStream,
}

/// Identifier-layer failure: the hex text handed to decoding is malformed
/// (a non-digit character or an odd number of digits).
#[derive(Debug, Clone, Copy, PartialEq, Eq)]
pub enum EncodingError {
    BadHex,
}

/// Validation failure of a build request: the database payload is shorter
/// than the fixed header floor, or the option combination is not one of the
/// supported sets.
#[derive(Debug, Clone, Copy, PartialEq, Eq)]
pub enum ValidationError {
    TooSmall,
    UnsupportedOption,
}

/// A diagnostic reported by the external script compiler.
#[derive(Debug, Clone, PartialEq, Eq)]
pub struct CompileError {
    pub message: String,
}

/// A build failure, tagged with the pipeline stage that raised it.
#[derive(Debug, Clone, PartialEq, Eq)]
pub enum BuildError {
    Validation(ValidationError),
    DatabaseCompile(CompileError),
    AdaptorCompile(CompileError),
    LoaderCompile(CompileError),
}

/// An extraction failure: the loader bytecode would not run, or one of the
/// recovered entries would not reverse through hex, cipher and codec.
#[derive(Debug, Clone, PartialEq, Eq)]
pub enum ExtractError {
    LoaderRun(String),
    Encoding(EncodingError),
    Format(FormatError),
}

} // verus!
