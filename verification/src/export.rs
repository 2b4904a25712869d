//! Export of up to three fields as one RGBA raster, and its PNG encoding.

use vstd::prelude::*;
use image::ImageEncoder;
use crate::buffer::{mappable, FieldBuffer};
use crate::error::{ConfigError, RunError};
use crate::sample::{channel_level, channel_value, FULL_LEVEL};

verus! {

/// Level of pixel `j` in a channel: that of the field's sample where a field
/// feeds the channel, the full level where none does.
pub open spec fn level_at(field: Option<Seq<u32>>, j: int) -> u8 {
    match field {
        Some(samples) => channel_level(samples[j]) as u8,
        None => FULL_LEVEL,
    }
}

/// The raster of `cells` pixels, four bytes each: red, green and blue from
/// the three fields, alpha opaque.
pub open spec fn raster_of(
    r: Option<Seq<u32>>,
    g: Option<Seq<u32>>,
    b: Option<Seq<u32>>,
    cells: nat,
) -> Seq<u8> {
    Seq::new(
        4 * cells,
        |k: int|
            if k % 4 == 0 {
                level_at(r, k / 4)
            } else if k % 4 == 1 {
                level_at(g, k / 4)
            } else if k % 4 == 2 {
                level_at(b, k / 4)
            } else {
                FULL_LEVEL
            },
    )
}

/// The samples of a field that may be absent, as a sequence.
pub open spec fn samples_of(field: Option<&[u32]>) -> Option<Seq<u32>> {
    match field {
        Some(samples) => Some(samples@),
        None => None,
    }
}

/// The PNG file that the encoder writes for an 8-bit RGBA raster of the
/// given width and height.
pub uninterp spec fn png_rgba8(raster: Seq<u8>, width: u32, height: u32) -> Seq<u8>;

/// Calls `write_image` of `image::png::PngEncoder`, made by `new` over a
/// vector, with the colour type `Rgba8`, and hands back the bytes written or
/// the error's debug text. What is written is a function of the raster and
/// the dimensions. The encoder refuses a zero width, a zero height and a
/// raster of another length than `width * height * 4`; every other failure
/// would be the writer's, and a vector takes all that is written to it.
#[verifier::external_body]
fn encode_png(raster: &[u8], width: u32, height: u32) -> (png: Result<Vec<u8>, String>)
    requires
        width * height * 4 <= usize::MAX,
    ensures
        png is Ok <==> (width > 0 && height > 0 && raster@.len() == width * height * 4),
        png is Ok ==> png->Ok_0@ == png_rgba8(raster@, width, height),
{
    let mut out: Vec<u8> = Vec::new();
    let enc = image::png::PngEncoder::new(&mut out);
    match enc.write_image(raster, width, height, image::ColorType::Rgba8) {
        Ok(()) => Ok(out),
        Err(e) => Err(format!("{:?}", e)),
    }
}

/// Writes the levels of one field into its channel of the raster.
fn paint_channel(rgba_buffer: &mut Vec<u8>, color_data: &[u32], channel: usize)
    requires
        channel < 3,
        old(rgba_buffer)@.len() == 4 * color_data@.len(),
    ensures
        final(rgba_buffer)@.len() == old(rgba_buffer)@.len(),
        forall|k: int|
            0 <= k < old(rgba_buffer)@.len() ==> #[trigger] final(rgba_buffer)@[k] == if k % 4
                == channel {
                channel_level(color_data@[k / 4]) as u8
            } else {
                old(rgba_buffer)@[k]
            },
{
    let cells = color_data.len();
    let total = rgba_buffer.len();
    let mut j: usize = 0;
    while j < cells
        invariant
            channel < 3,
            total == 4 * cells,
            cells == color_data@.len(),
            j <= cells,
            rgba_buffer@.len() == 4 * cells,
            forall|k: int|
                0 <= k < rgba_buffer@.len() ==> #[trigger] rgba_buffer@[k] == if k % 4 == channel
                    && k / 4 < j {
                    channel_level(color_data@[k / 4]) as u8
                } else {
                    old(rgba_buffer)@[k]
                },
        decreases cells - j,
    {
        let level = channel_value(color_data[j]);
        rgba_buffer.set(j * 4 + channel, level);
        j += 1;
    }
}

/// The raster of `cells` pixels that shows the three fields: a channel that
/// no field feeds is at the full level in every pixel, and so is alpha.
pub fn compose_raster(
    r: Option<&[u32]>,
    g: Option<&[u32]>,
    b: Option<&[u32]>,
    cells: usize,
) -> (rgba_buffer: Vec<u8>)
    requires
        4 * cells <= usize::MAX,
        r is Some ==> r->Some_0@.len() == cells,
        g is Some ==> g->Some_0@.len() == cells,
        b is Some ==> b->Some_0@.len() == cells,
    ensures
        rgba_buffer@ == raster_of(samples_of(r), samples_of(g), samples_of(b), cells as nat),
{
    let mut rgba_buffer: Vec<u8> = vec![255u8; 4 * cells];
    if let Some(col_buf) = r {
        paint_channel(&mut rgba_buffer, col_buf, 0);
    }
    if let Some(col_buf) = g {
        paint_channel(&mut rgba_buffer, col_buf, 1);
    }
    if let Some(col_buf) = b {
        paint_channel(&mut rgba_buffer, col_buf, 2);
    }
    proof {
        assert(rgba_buffer@ =~= raster_of(
            samples_of(r),
            samples_of(g),
            samples_of(b),
            cells as nat,
        ));
    }
    rgba_buffer
}

/// With only the red field given, every pixel has red at the level of its
/// sample and green, blue and alpha at the full level.
pub proof fn lemma_red_only_raster(red: Seq<u32>, cells: nat, j: int)
    requires
        0 <= j < cells,
    ensures
        raster_of(Some(red), None, None, cells).len() == 4 * cells,
        raster_of(Some(red), None, None, cells)[4 * j] == channel_level(red[j]) as u8,
        raster_of(Some(red), None, None, cells)[4 * j + 1] == 255,
        raster_of(Some(red), None, None, cells)[4 * j + 2] == 255,
        raster_of(Some(red), None, None, cells)[4 * j + 3] == 255,
{
}

/// Place of the first field, in the order red, green, blue, that is present
/// and does not have `cells` samples.
pub open spec fn misfit_channel(
    r: Option<Seq<u32>>,
    g: Option<Seq<u32>>,
    b: Option<Seq<u32>>,
    cells: int,
) -> Option<usize> {
    if r is Some && r->Some_0.len() != cells {
        Some(0usize)
    } else if g is Some && g->Some_0.len() != cells {
        Some(1usize)
    } else if b is Some && b->Some_0.len() != cells {
        Some(2usize)
    } else {
        None
    }
}

/// The mismatch for which an export is refused before anything is encoded.
pub open spec fn export_error(
    r: Option<Seq<u32>>,
    g: Option<Seq<u32>>,
    b: Option<Seq<u32>>,
    width: u32,
    height: u32,
) -> Option<ConfigError> {
    if width * height * 4 > usize::MAX {
        Some(ConfigError::GridTooLarge)
    } else {
        match misfit_channel(r, g, b, width * height) {
            Some(slot) => Some(ConfigError::FieldLengthMismatch { slot }),
            None => None,
        }
    }
}

/// `file` is what the export of the three fields over a grid of `width` by
/// `height` cells returns: the mismatch for which it is refused; else, for a
/// grid with cells, the PNG file of the raster; else the encoder's error.
pub open spec fn is_export_of(
    file: Result<Vec<u8>, RunError>,
    r: Option<Seq<u32>>,
    g: Option<Seq<u32>>,
    b: Option<Seq<u32>>,
    width: u32,
    height: u32,
) -> bool {
    match export_error(r, g, b, width, height) {
        Some(e) => file is Err && file->Err_0 == RunError::Config(e),
        None => if width > 0 && height > 0 {
            file is Ok && file->Ok_0@ == png_rgba8(
                raster_of(r, g, b, (width * height) as nat),
                width,
                height,
            )
        } else {
            file is Err && file->Err_0 is Encode
        },
    }
}

/// What an export returns, given what the encoder returned: the file's
/// bytes, or the encoder's error as an error of the run.
pub fn finish_export(encoded: Result<Vec<u8>, String>) -> (file: Result<Vec<u8>, RunError>)
    ensures
        match encoded {
            Ok(bytes) => file is Ok && file->Ok_0 == bytes,
            Err(detail) => file is Err && file->Err_0 == RunError::Encode(detail),
        },
{
    match encoded {
        Ok(bytes) => Ok(bytes),
        Err(detail) => Err(RunError::Encode(detail)),
    }
}

/// Whether the field is present with another number of samples than `cells`.
fn misfits(field: &Option<&[u32]>, cells: usize) -> (misfit: bool)
    ensures
        misfit == (samples_of(*field) is Some && samples_of(*field)->Some_0.len() != cells),
{
    match field {
        Some(samples) => samples.len() != cells,
        None => false,
    }
}

/// Encodes up to three fields of a `width` by `height` grid as one PNG
/// image: red, green and blue from the fields given in that order, each
/// sample at its colour level, absent channels and alpha at the full level.
///
/// The export is refused where the raster does not fit the machine or a
/// field has another number of samples than the grid has cells. Otherwise
/// the raster is handed to the encoder: for a grid with cells the result is
/// the file it wrote, for a grid without cells its error.
pub fn write_image(
    r: Option<&[u32]>,
    g: Option<&[u32]>,
    b: Option<&[u32]>,
    width: u32,
    height: u32,
) -> (file: Result<Vec<u8>, RunError>)
    ensures
        is_export_of(file, samples_of(r), samples_of(g), samples_of(b), width, height),
{
    proof {
        assert(width * height <= 0xffff_ffff * 0xffff_ffff) by (nonlinear_arith)
            requires width <= 0xffff_ffff, height <= 0xffff_ffff;
    }
    let byte_len: u128 = width as u128 * height as u128 * 4;
    if byte_len > usize::MAX as u128 {
        return Err(RunError::Config(ConfigError::GridTooLarge));
    }
    let cells: usize = (byte_len / 4) as usize;
    if misfits(&r, cells) {
        return Err(RunError::Config(ConfigError::FieldLengthMismatch { slot: 0 }));
    }
    if misfits(&g, cells) {
        return Err(RunError::Config(ConfigError::FieldLengthMismatch { slot: 1 }));
    }
    if misfits(&b, cells) {
        return Err(RunError::Config(ConfigError::FieldLengthMismatch { slot: 2 }));
    }
    let rgba_buffer = compose_raster(r, g, b, cells);
    finish_export(encode_png(rgba_buffer.as_slice(), width, height))
}

/// One field of an export as the read-back left it: the record of its
/// buffer when the export begins, and the samples that the device handed
/// over when asked to map it, or nothing where it refused.
#[derive(Clone, Copy, Debug)]
pub struct FieldRead<'a> {
    pub buffer: FieldBuffer,
    pub answer: Option<&'a [u32]>,
}

/// The field, if one is given, could be read back: its buffer was free to be
/// mapped as a whole and the device handed its samples over.
pub open spec fn was_read(field: Option<FieldRead>) -> bool {
    match field {
        Some(f) => mappable(f.buffer, 0, f.buffer.byte_len) && f.answer is Some,
        None => true,
    }
}

/// The samples read back from a field, if one is given and was read.
pub open spec fn read_of(field: Option<FieldRead>) -> Option<Seq<u32>> {
    match field {
        Some(f) => samples_of(f.answer),
        None => None,
    }
}

/// Whether a field is given and could not be read back.
fn unread(field: &Option<FieldRead>) -> (failed: bool)
    ensures
        failed == !was_read(*field),
{
    match field {
        Some(f) => !(f.buffer.is_bindable() && f.buffer.usage.map_read && f.answer.is_some()),
        None => false,
    }
}

/// The samples of a field, if one is given and was read.
fn answer_of<'a>(field: &Option<FieldRead<'a>>) -> (samples: Option<&'a [u32]>)
    ensures
        samples_of(samples) == read_of(*field),
{
    match field {
        Some(f) => f.answer,
        None => None,
    }
}

/// Exports up to three fields after their read-back. Where the buffer of a
/// given field was mapped already, or about to be, or the device refused to
/// map it, the mapping has failed and nothing is encoded, whichever field it
/// is and whatever the others came to. Otherwise the samples read back are
/// exported as `write_image` does.
pub fn export_fields(
    r: Option<FieldRead>,
    g: Option<FieldRead>,
    b: Option<FieldRead>,
    width: u32,
    height: u32,
) -> (file: Result<Vec<u8>, RunError>)
    ensures
        if was_read(r) && was_read(g) && was_read(b) {
            is_export_of(file, read_of(r), read_of(g), read_of(b), width, height)
        } else {
            file is Err && file->Err_0 is MappingFailed
        },
{
    if unread(&r) || unread(&g) || unread(&b) {
        return Err(RunError::MappingFailed);
    }
    write_image(answer_of(&r), answer_of(&g), answer_of(&b), width, height)
}

} // verus!
