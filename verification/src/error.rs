//! What can end a run.

use vstd::prelude::*;
use vstd::string::StringExecFns;

verus! {

/// Why a shader binary was refused.
#[derive(Clone, Copy, Debug, PartialEq, Eq, Structural)]
pub enum ShaderDecodeError {
    /// The binary's length is no multiple of four bytes.
    LengthNotWordMultiple,
    /// The binary does not start with the SPIR-V magic number.
    MissingMagicNumber,
}

/// A mismatch between the pieces handed to the library.
#[derive(Clone, Copy, Debug, PartialEq, Eq, Structural)]
pub enum ConfigError {
    /// The grid's byte length does not fit the machine.
    GridTooLarge,
    /// The layout's slot indices do not run from zero without a gap.
    MalformedLayout,
    /// The number of buffers differs from the number of slots.
    SlotCountMismatch { slots: usize, buffers: usize },
    /// The buffer for this slot does not have the field's byte length.
    FieldLengthMismatch { slot: usize },
    /// A step of the run was reported out of its turn.
    OutOfSequence,
}

/// An error of the run. None is retried: each ends the run.
#[derive(Clone, Debug)]
pub enum RunError {
    /// No compatible GPU was found.
    NoAdapterAvailable,
    /// The shader binary is malformed.
    ShaderDecode(ShaderDecodeError),
    /// The device refused to map a buffer, or the buffer is mapped already.
    MappingFailed,
    /// The destination of the image could not be opened.
    FileIo(String),
    /// The raster could not be encoded.
    Encode(String),
    /// The pieces handed to the library do not fit together.
    Config(ConfigError),
}

impl ShaderDecodeError {
    /// The text that describes the error.
    pub open spec fn text(self) -> Seq<char> {
        match self {
            ShaderDecodeError::LengthNotWordMultiple => "input length not divisible by 4"@,
            ShaderDecodeError::MissingMagicNumber => "input missing SPIR-V magic number"@,
        }
    }

    /// The text that describes the error.
    pub fn message(&self) -> (message: String)
        ensures
            message@ == self.text(),
    {
        match self {
            ShaderDecodeError::LengthNotWordMultiple => "input length not divisible by 4".to_string(),
            ShaderDecodeError::MissingMagicNumber => "input missing SPIR-V magic number".to_string(),
        }
    }
}

impl ConfigError {
    /// The text that describes the error.
    pub open spec fn text(self) -> Seq<char> {
        match self {
            ConfigError::GridTooLarge => "grid does not fit the address space"@,
            ConfigError::MalformedLayout => "binding slots do not run from zero without a gap"@,
            ConfigError::SlotCountMismatch { .. } => "number of buffers differs from number of binding slots"@,
            ConfigError::FieldLengthMismatch { .. } => "buffer does not have the byte length of a field"@,
            ConfigError::OutOfSequence => "step reported out of its turn"@,
        }
    }

    /// The text that describes the error.
    pub fn message(&self) -> (message: String)
        ensures
            message@ == self.text(),
    {
        match self {
            ConfigError::GridTooLarge => "grid does not fit the address space".to_string(),
            ConfigError::MalformedLayout => "binding slots do not run from zero without a gap".to_string(),
            ConfigError::SlotCountMismatch { .. } => "number of buffers differs from number of binding slots".to_string(),
            ConfigError::FieldLengthMismatch { .. } => "buffer does not have the byte length of a field".to_string(),
            ConfigError::OutOfSequence => "step reported out of its turn".to_string(),
        }
    }
}

impl RunError {
    /// The line that reports the error: a fixed text, followed for an error
    /// of the file or of the encoder by the detail it carries.
    pub open spec fn text(self) -> Seq<char> {
        match self {
            RunError::NoAdapterAvailable => "No adapter available"@,
            RunError::ShaderDecode(e) => e.text(),
            RunError::MappingFailed => "mapping failed"@,
            RunError::FileIo(detail) => "File error: "@ + detail@,
            RunError::Encode(detail) => "Writing image failed: "@ + detail@,
            RunError::Config(e) => e.text(),
        }
    }

    /// The line that reports the error.
    pub fn message(&self) -> (message: String)
        ensures
            message@ == self.text(),
    {
        match self {
            RunError::NoAdapterAvailable => "No adapter available".to_string(),
            RunError::ShaderDecode(e) => e.message(),
            RunError::MappingFailed => "mapping failed".to_string(),
            RunError::FileIo(detail) => "File error: ".to_string().concat(detail.as_str()),
            RunError::Encode(detail) => "Writing image failed: ".to_string().concat(detail.as_str()),
            RunError::Config(e) => e.message(),
        }
    }
}

} // verus!
