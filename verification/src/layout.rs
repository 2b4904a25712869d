//! Binding layouts and bind groups: which slots a pipeline expects, and
//! which buffer fills each of them.

use vstd::prelude::*;
use crate::buffer::{FieldBuffer, MapState};
use crate::error::{ConfigError, RunError};

verus! {

/// The shader stage that sees a binding.
#[derive(Clone, Copy, Debug, PartialEq, Eq, Structural)]
pub enum ShaderStage {
    Vertex,
    Fragment,
    Compute,
}

/// The kind of resource a slot takes.
#[derive(Clone, Copy, Debug, PartialEq, Eq, Structural)]
pub enum BindingKind {
    /// A buffer bound as a uniform block.
    UniformBuffer { dynamic: bool },
    /// A buffer bound as general storage.
    StorageBuffer { dynamic: bool, readonly: bool },
}

/// One slot of a layout.
#[derive(Clone, Copy, Debug, PartialEq, Eq, Structural)]
pub struct LayoutEntry {
    /// The slot's index.
    pub binding: u32,
    /// The stage that sees the slot.
    pub visibility: ShaderStage,
    /// What the slot takes.
    pub kind: BindingKind,
}

/// The slots a pipeline expects, in order.
#[derive(Clone, Debug)]
pub struct BindingLayout {
    pub entries: Vec<LayoutEntry>,
}

/// One slot of a bind group: the buffer bound to it, by its place in the
/// list of buffers, and the bound range of bytes.
#[derive(Clone, Copy, Debug, PartialEq, Eq, Structural)]
pub struct Binding {
    /// The slot's index.
    pub binding: u32,
    /// Place of the buffer in the list of buffers.
    pub buffer: usize,
    /// First byte bound.
    pub start: u64,
    /// One past the last byte bound.
    pub end: u64,
}

/// The buffers bound to the slots of one layout.
#[derive(Clone, Debug)]
pub struct BindGroup {
    pub bindings: Vec<Binding>,
}

/// The slot that a field layout has at index `i`: a uniform buffer without
/// dynamic offset, seen by the compute stage.
pub open spec fn field_entry(i: int) -> LayoutEntry {
    LayoutEntry {
        binding: i as u32,
        visibility: ShaderStage::Compute,
        kind: BindingKind::UniformBuffer { dynamic: false },
    }
}

/// The binding of slot `i` to the whole of buffer `i`.
pub open spec fn whole_binding(i: int, field_len: u64) -> Binding {
    Binding { binding: i as u32, buffer: i as usize, start: 0, end: field_len }
}

impl BindingLayout {
    /// The slot indices are `0, 1, 2, ...` in order: unique and without a
    /// gap.
    pub open spec fn well_formed(&self) -> bool {
        &&& self.entries@.len() <= u32::MAX
        &&& forall|i: int|
            0 <= i < self.entries@.len() ==> (#[trigger] self.entries@[i]).binding == i
    }

    /// The layout of `slots` field buffers.
    pub fn for_fields(slots: u32) -> (layout: BindingLayout)
        ensures
            layout.well_formed(),
            layout.entries@.len() == slots,
            forall|i: int| 0 <= i < slots ==> #[trigger] layout.entries@[i] == field_entry(i),
    {
        let mut entries: Vec<LayoutEntry> = Vec::new();
        let mut i: u32 = 0;
        while i < slots
            invariant
                i <= slots,
                entries@.len() == i,
                forall|j: int| 0 <= j < i ==> #[trigger] entries@[j] == field_entry(j),
            decreases slots - i,
        {
            entries.push(
                LayoutEntry {
                    binding: i,
                    visibility: ShaderStage::Compute,
                    kind: BindingKind::UniformBuffer { dynamic: false },
                },
            );
            i += 1;
        }
        BindingLayout { entries }
    }

    /// Whether the slot indices run from zero without a gap.
    pub fn is_well_formed(&self) -> (ok: bool)
        ensures
            ok == self.well_formed(),
    {
        if self.entries.len() > u32::MAX as usize {
            return false;
        }
        let mut i: usize = 0;
        while i < self.entries.len()
            invariant
                i <= self.entries@.len() <= u32::MAX,
                forall|j: int| 0 <= j < i ==> (#[trigger] self.entries@[j]).binding == j,
            decreases self.entries@.len() - i,
        {
            if self.entries[i].binding != i as u32 {
                return false;
            }
            i += 1;
        }
        true
    }
}

/// First place at which a buffer does not have the field's byte length, or
/// the number of buffers where all have it.
pub open spec fn first_mismatch(buffers: Seq<FieldBuffer>, field_len: u64) -> int
    decreases buffers.len(),
{
    if buffers.len() == 0 {
        0
    } else if buffers[0].byte_len != field_len {
        0
    } else {
        1 + first_mismatch(buffers.skip(1), field_len)
    }
}

/// What assembling a bind group fails with, if it fails.
pub open spec fn assembly_error(
    layout: BindingLayout,
    buffers: Seq<FieldBuffer>,
    field_len: u64,
) -> Option<ConfigError> {
    if !layout.well_formed() {
        Some(ConfigError::MalformedLayout)
    } else if layout.entries@.len() != buffers.len() {
        Some(
            ConfigError::SlotCountMismatch {
                slots: layout.entries@.len() as usize,
                buffers: buffers.len() as usize,
            },
        )
    } else if first_mismatch(buffers, field_len) < buffers.len() {
        Some(ConfigError::FieldLengthMismatch { slot: first_mismatch(buffers, field_len) as usize })
    } else {
        None
    }
}

/// The first mismatch lies within the list or at its end, every buffer
/// before it has the field's length, and the buffer at it has not.
pub proof fn lemma_first_mismatch(buffers: Seq<FieldBuffer>, field_len: u64)
    ensures
        0 <= first_mismatch(buffers, field_len) <= buffers.len(),
        forall|i: int|
            0 <= i < first_mismatch(buffers, field_len) ==> (#[trigger] buffers[i]).byte_len
                == field_len,
        first_mismatch(buffers, field_len) < buffers.len() ==> buffers[first_mismatch(
            buffers,
            field_len,
        )].byte_len != field_len,
    decreases buffers.len(),
{
    if buffers.len() > 0 && buffers[0].byte_len == field_len {
        let rest = buffers.skip(1);
        lemma_first_mismatch(rest, field_len);
        assert forall|i: int| 0 <= i < first_mismatch(buffers, field_len) implies (
        #[trigger] buffers[i]).byte_len == field_len by {
            if i > 0 {
                assert(buffers[i] == rest[i - 1]);
            }
        }
        let m = first_mismatch(rest, field_len);
        if m < rest.len() {
            assert(buffers[m + 1] == rest[m]);
        }
    }
}

/// A place with a wrong length before which all lengths are right is the
/// first mismatch; without such a place the first mismatch is the end.
proof fn lemma_first_mismatch_is(buffers: Seq<FieldBuffer>, field_len: u64, at: int)
    requires
        0 <= at <= buffers.len(),
        forall|i: int| 0 <= i < at ==> (#[trigger] buffers[i]).byte_len == field_len,
        at < buffers.len() ==> buffers[at].byte_len != field_len,
    ensures
        first_mismatch(buffers, field_len) == at,
{
    lemma_first_mismatch(buffers, field_len);
    let m = first_mismatch(buffers, field_len);
    if m < at {
        assert(buffers[m].byte_len == field_len);
    } else if m > at {
        assert(buffers[at].byte_len == field_len);
    }
}

/// Binds buffer `i` to slot `i` of the layout, over its whole byte range
/// `0..field_len`. Fails where the layout is malformed, where the number of
/// buffers is not the number of slots, or where a buffer does not have the
/// field's byte length; the first of these that holds is reported.
pub fn assemble_bind_group(
    layout: &BindingLayout,
    buffers: &Vec<FieldBuffer>,
    field_len: u64,
) -> (group: Result<BindGroup, RunError>)
    ensures
        match assembly_error(*layout, buffers@, field_len) {
            Some(e) => group is Err && group->Err_0 == RunError::Config(e),
            None => group is Ok && group->Ok_0.bindings@.len() == buffers@.len() && forall|i: int|
                0 <= i < buffers@.len() ==> #[trigger] group->Ok_0.bindings@[i] == whole_binding(
                    i,
                    field_len,
                ),
        },
{
    if !layout.is_well_formed() {
        return Err(RunError::Config(ConfigError::MalformedLayout));
    }
    if layout.entries.len() != buffers.len() {
        return Err(
            RunError::Config(
                ConfigError::SlotCountMismatch {
                    slots: layout.entries.len(),
                    buffers: buffers.len(),
                },
            ),
        );
    }
    let mut bindings: Vec<Binding> = Vec::new();
    let mut i: usize = 0;
    while i < buffers.len()
        invariant
            layout.well_formed(),
            layout.entries@.len() == buffers@.len(),
            i <= buffers@.len() <= u32::MAX,
            bindings@.len() == i,
            forall|j: int| 0 <= j < i ==> (#[trigger] buffers@[j]).byte_len == field_len,
            forall|j: int| 0 <= j < i ==> #[trigger] bindings@[j] == whole_binding(j, field_len),
        decreases buffers@.len() - i,
    {
        if buffers[i].byte_len != field_len {
            proof {
                lemma_first_mismatch_is(buffers@, field_len, i as int);
            }
            return Err(RunError::Config(ConfigError::FieldLengthMismatch { slot: i }));
        }
        bindings.push(Binding { binding: i as u32, buffer: i, start: 0, end: field_len });
        i += 1;
    }
    proof {
        lemma_first_mismatch_is(buffers@, field_len, buffers@.len() as int);
    }
    Ok(BindGroup { bindings })
}

} // verus!
