//! The host's record of a field buffer on the device, and of its mapping.
//!
//! A buffer is mapped for reading between a granted map request and the
//! release of the mapping. While a request is pending or a mapping is live
//! the buffer can be neither mapped again nor bound for a dispatch.

use vstd::prelude::*;
use crate::error::RunError;
use crate::field::FieldUsage;

verus! {

/// Where a buffer stands between the device and the host.
#[derive(Clone, Copy, Debug, PartialEq, Eq, Structural)]
pub enum MapState {
    /// The device owns the bytes.
    Unmapped,
    /// A map request was made and has not resolved.
    Pending,
    /// The host holds a view of the bytes.
    Mapped,
}

/// A range of bytes of a buffer that a map request names.
#[derive(Clone, Copy, Debug, PartialEq, Eq, Structural)]
pub struct MapRequest {
    /// First byte of the range.
    pub offset: u64,
    /// Number of bytes.
    pub size: u64,
}

/// The host's record of one field buffer.
#[derive(Clone, Copy, Debug, PartialEq, Eq, Structural)]
pub struct FieldBuffer {
    /// Length of the buffer in bytes.
    pub byte_len: u64,
    /// What the buffer was created for.
    pub usage: FieldUsage,
    /// Whether the host has it mapped.
    pub state: MapState,
}

/// Whether a request for `size` bytes at `offset` can be granted to `buffer`.
pub open spec fn mappable(buffer: FieldBuffer, offset: u64, size: u64) -> bool {
    &&& buffer.state == MapState::Unmapped
    &&& buffer.usage.map_read
    &&& offset + size <= buffer.byte_len
}

/// What a map request leaves and returns: where the buffer can be mapped,
/// the pending buffer and the request; where it cannot, the buffer as it
/// was and the failure.
pub open spec fn map_read_outcome(buffer: FieldBuffer, offset: u64, size: u64) -> (
    FieldBuffer,
    Result<MapRequest, RunError>,
) {
    if mappable(buffer, offset, size) {
        (FieldBuffer { state: MapState::Pending, ..buffer }, Ok(MapRequest { offset, size }))
    } else {
        (buffer, Err(RunError::MappingFailed))
    }
}

/// What the device's answer leaves and returns: a pending buffer is mapped
/// where the request was granted and unmapped with a failure where it was
/// refused; a buffer that is not pending stays as it was, with a failure.
pub open spec fn resolve_outcome(buffer: FieldBuffer, granted: bool) -> (
    FieldBuffer,
    Result<(), RunError>,
) {
    if buffer.state != MapState::Pending {
        (buffer, Err(RunError::MappingFailed))
    } else if granted {
        (FieldBuffer { state: MapState::Mapped, ..buffer }, Ok(()))
    } else {
        (FieldBuffer { state: MapState::Unmapped, ..buffer }, Err(RunError::MappingFailed))
    }
}

/// While a mapping of a buffer is pending or live, every further map
/// request fails with `MappingFailed` and leaves the buffer as it was,
/// whatever range it names: nothing is answered from the earlier mapping.
pub proof fn lemma_second_mapping_is_refused(
    buffer: FieldBuffer,
    offset: u64,
    size: u64,
    again_offset: u64,
    again_size: u64,
)
    requires
        mappable(buffer, offset, size),
    ensures
        ({
            let pending = map_read_outcome(buffer, offset, size).0;
            let mapped = resolve_outcome(pending, true).0;
            &&& map_read_outcome(pending, again_offset, again_size) == (
                pending,
                Err::<MapRequest, RunError>(RunError::MappingFailed),
            )
            &&& map_read_outcome(mapped, again_offset, again_size) == (
                mapped,
                Err::<MapRequest, RunError>(RunError::MappingFailed),
            )
        }),
{
}

/// Once a mapping is released, or was refused, the buffer can be mapped
/// again.
pub proof fn lemma_released_buffer_is_mappable(buffer: FieldBuffer, offset: u64, size: u64)
    requires
        mappable(buffer, offset, size),
    ensures
        ({
            let pending = map_read_outcome(buffer, offset, size).0;
            &&& mappable(resolve_outcome(pending, false).0, offset, size)
            &&& mappable(
                FieldBuffer { state: MapState::Unmapped, ..resolve_outcome(pending, true).0 },
                offset,
                size,
            )
        }),
{
}

impl FieldBuffer {
    /// The record of a buffer just created: nothing is mapped.
    pub fn new(byte_len: u64, usage: FieldUsage) -> (buffer: FieldBuffer)
        ensures
            buffer == (FieldBuffer { byte_len, usage, state: MapState::Unmapped }),
    {
        FieldBuffer { byte_len, usage, state: MapState::Unmapped }
    }

    /// Whether the buffer may be the target of a dispatch: only while the
    /// device owns its bytes.
    pub fn is_bindable(&self) -> (bindable: bool)
        ensures
            bindable == (self.state == MapState::Unmapped),
    {
        match self.state {
            MapState::Unmapped => true,
            _ => false,
        }
    }

    /// Asks for a read mapping of `size` bytes at `offset`. The request is
    /// made where the buffer is host-readable, not mapped or about to be,
    /// and holds the range; the buffer is then pending. Any other request
    /// fails and leaves the record as it was.
    pub fn map_read(&mut self, offset: u64, size: u64) -> (request: Result<MapRequest, RunError>)
        ensures
            (*final(self), request) == map_read_outcome(*old(self), offset, size),
    {
        let in_range = match offset.checked_add(size) {
            Some(end) => end <= self.byte_len,
            None => false,
        };
        if self.is_bindable() && self.usage.map_read && in_range {
            self.state = MapState::Pending;
            Ok(MapRequest { offset, size })
        } else {
            Err(RunError::MappingFailed)
        }
    }

    /// Takes the device's answer to a pending request: granted, the buffer
    /// is mapped; refused, it is unmapped again and the mapping has failed.
    /// An answer that no request is pending for fails and changes nothing.
    pub fn resolve(&mut self, granted: bool) -> (outcome: Result<(), RunError>)
        ensures
            (*final(self), outcome) == resolve_outcome(*old(self), granted),
    {
        match self.state {
            MapState::Pending => {
                if granted {
                    self.state = MapState::Mapped;
                    Ok(())
                } else {
                    self.state = MapState::Unmapped;
                    Err(RunError::MappingFailed)
                }
            },
            _ => Err(RunError::MappingFailed),
        }
    }

    /// Releases the mapping, or withdraws the pending request: the device
    /// owns the bytes again.
    pub fn unmap(&mut self)
        ensures
            *final(self) == (FieldBuffer { state: MapState::Unmapped, ..*old(self) }),
    {
        self.state = MapState::Unmapped;
    }
}

} // verus!
