use vstd::prelude::*;

verus! {

/// Why a caller's request was refused before any work was done.
#[derive(Clone, Copy, Debug, PartialEq, Eq, Structural)]
pub enum UsageReason {
    /// The additional data is longer than a 32-bit length can describe.
    AdTooLong,
    /// The custom section would not fit in a single-byte length.
    NameTooLong,
    /// The signature slot would end past the largest positive 32-bit offset.
    OffsetOverflow,
    /// A section already holds as many entries as a 32-bit index can name.
    SectionFull,
}

/// What was wrong with the structure of a module or of an encoded blob.
#[derive(Clone, Copy, Debug, PartialEq, Eq, Structural)]
pub enum ParseReason {
    /// An encoded key or signature holds no more than its algorithm id.
    ShortEncoding,
    NoDataSection,
    NoGlobalSection,
    NoExportSection,
    /// The data section has no segment to place the signature after.
    NoDataSegment,
    /// A data segment's offset is not `i32.const k; end` with `k >= 0`, or
    /// its end does not fit in 32 bits.
    MalformedDataSegment,
    SymbolAlreadyPresent,
    SymbolNotFound,
    /// The export that names the signature does not refer to a global.
    NotAGlobal,
    /// The exported global index is past the end of the global section.
    GlobalOutOfRange,
    MutableGlobal,
    NotAnI32Global,
    /// The global's initialiser is not `i32.const k; end`.
    MalformedGlobalInit,
    /// No data segment sits at the offset that the global holds.
    ReferenceNotFound,
    /// The reference segment does not hold exactly four bytes.
    BadReferenceLength,
    /// The reference segment points at a negative offset.
    NegativeOffset,
    /// No data segment sits at the offset of the signature.
    SlotNotFound,
    SectionAlreadyPresent,
    SectionNotFound,
    /// The module is shorter than the custom section it should end with.
    SectionTooShort,
}

/// Why a signature could not be made or was not accepted.
#[derive(Clone, Copy, Debug, PartialEq, Eq, Structural)]
pub enum SignatureReason {
    /// The signature's algorithm differs from the public key's.
    SchemeMismatch,
    InvalidPublicKey,
    InvalidSecretKey,
    InvalidSignature,
    /// The cryptographic check rejected the signature.
    Mismatch,
}

/// The errors of this library.
#[derive(Clone, Copy, Debug, PartialEq, Eq, Structural)]
pub enum WError {
    UsageError(UsageReason),
    ParseError(ParseReason),
    /// The module could not be decoded or encoded as WebAssembly.
    WAsmError,
    SignatureError(SignatureReason),
    /// The algorithm id is not one this library knows.
    Unsupported,
}

impl WError {
    /// A short human-readable description of the error.
    pub fn message(&self) -> (r: &'static str) {
        match self {
            WError::UsageError(UsageReason::AdTooLong) => "Incorrect usage: additional data too long",
            WError::UsageError(UsageReason::NameTooLong) => "Incorrect usage: custom section name is too long",
            WError::UsageError(UsageReason::OffsetOverflow) => "Incorrect usage: data section is full, offset would overflow",
            WError::UsageError(UsageReason::SectionFull) => "Incorrect usage: section is full",
            WError::ParseError(_) => "Parse error: the module does not have the expected structure",
            WError::WAsmError => "WebAssembly encoding error",
            WError::SignatureError(SignatureReason::SchemeMismatch) => "Signature uses a different scheme than the provided public key",
            WError::SignatureError(_) => "Signature verification failed",
            WError::Unsupported => "Unsupported signature scheme",
        }
    }
}

} // verus!
