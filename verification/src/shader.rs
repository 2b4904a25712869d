//! The compute shader: decoding of the SPIR-V binary and the description of
//! the pipeline built from it.

use vstd::prelude::*;
use crate::error::{RunError, ShaderDecodeError};
use crate::field::{be_word, le_word};
use crate::layout::BindingLayout;

verus! {

/// The first word of every SPIR-V module.
pub const SPIRV_MAGIC: u32 = 0x0723_0203;

/// The bytes have the frame of a SPIR-V module: whole words, the first of
/// which is the magic number in one byte order.
pub open spec fn is_spirv(blob: Seq<u8>) -> bool {
    &&& blob.len() % 4 == 0
    &&& blob.len() > 0
    &&& (le_word(blob, 0) == SPIRV_MAGIC || be_word(blob, 0) == SPIRV_MAGIC)
}

/// The words of a SPIR-V module, read in the byte order in which its first
/// word is the magic number.
pub open spec fn spirv_words(blob: Seq<u8>) -> Seq<u32> {
    Seq::new(
        (blob.len() / 4) as nat,
        |i: int|
            if le_word(blob, 0) == SPIRV_MAGIC {
                le_word(blob, i)
            } else {
                be_word(blob, i)
            },
    )
}

/// What decoding a binary fails with, if it fails.
pub open spec fn decode_error(blob: Seq<u8>) -> Option<ShaderDecodeError> {
    if blob.len() % 4 != 0 {
        Some(ShaderDecodeError::LengthNotWordMultiple)
    } else if !is_spirv(blob) {
        Some(ShaderDecodeError::MissingMagicNumber)
    } else {
        None
    }
}

/// Calls `wgpu::read_spirv` on a cursor over the bytes and drops the error's
/// text. The call succeeds where the length is a multiple of four and the
/// first word is the magic number in either byte order; it then returns the
/// words in the order in which the first one reads as the magic number.
#[verifier::external_body]
fn read_spirv_words(blob: &[u8]) -> (words: Option<Vec<u32>>)
    ensures
        words is Some <==> is_spirv(blob@),
        words is Some ==> words->Some_0@ == spirv_words(blob@),
{
    wgpu::read_spirv(std::io::Cursor::new(blob)).ok()
}

/// What a compute pipeline is built from.
#[derive(Debug)]
pub struct PipelineDescriptor {
    /// The shader module's words.
    pub module: Vec<u32>,
    /// The layouts of the bind groups, in the order in which the groups are
    /// set at dispatch.
    pub bind_group_layouts: Vec<BindingLayout>,
    /// Name of the shader's entry point.
    pub entry_point: String,
}

/// Decodes a shader binary into the words of its module.
pub fn decode_shader(spirv: &[u8]) -> (words: Result<Vec<u32>, ShaderDecodeError>)
    ensures
        match decode_error(spirv@) {
            Some(e) => words == Err::<Vec<u32>, ShaderDecodeError>(e),
            None => words is Ok && words->Ok_0@ == spirv_words(spirv@),
        },
{
    match read_spirv_words(spirv) {
        Some(words) => Ok(words),
        None => {
            if spirv.len() % 4 != 0 {
                Err(ShaderDecodeError::LengthNotWordMultiple)
            } else {
                Err(ShaderDecodeError::MissingMagicNumber)
            }
        },
    }
}

/// Describes the compute pipeline for a shader binary: its decoded module,
/// the given layouts in the given order, and the entry point `main`.
pub fn create_compute_shader(spirv: &[u8], bind_group_layouts: Vec<BindingLayout>) -> (pipeline:
    Result<PipelineDescriptor, RunError>)
    ensures
        match decode_error(spirv@) {
            Some(e) => pipeline is Err && pipeline->Err_0 == RunError::ShaderDecode(e),
            None => pipeline is Ok && pipeline->Ok_0.module@ == spirv_words(spirv@)
                && pipeline->Ok_0.bind_group_layouts == bind_group_layouts
                && pipeline->Ok_0.entry_point@ == "main"@,
        },
{
    match decode_shader(spirv) {
        Ok(module) => Ok(
            PipelineDescriptor { module, bind_group_layouts, entry_point: "main".to_string() },
        ),
        Err(e) => Err(RunError::ShaderDecode(e)),
    }
}

} // verus!
