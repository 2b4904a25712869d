use field_compute::buffer::FieldBuffer;
use field_compute::error::{ConfigError, RunError};
use field_compute::field::FieldUsage;
use field_compute::layout::{
    assemble_bind_group, Binding, BindingKind, BindingLayout, LayoutEntry, ShaderStage,
};

fn buffers(n: usize, byte_len: u64) -> Vec<FieldBuffer> {
    let usage = FieldUsage { map_read: true, uniform: true, storage: true };
    (0..n).map(|_| FieldBuffer::new(byte_len, usage)).collect()
}

#[test]
fn field_layout_has_contiguous_compute_uniform_slots() {
    let layout = BindingLayout::for_fields(4);
    assert_eq!(layout.entries.len(), 4);
    for (i, entry) in layout.entries.iter().enumerate() {
        assert_eq!(
            *entry,
            LayoutEntry {
                binding: i as u32,
                visibility: ShaderStage::Compute,
                kind: BindingKind::UniformBuffer { dynamic: false },
            }
        );
    }
    assert!(layout.is_well_formed());
}

#[test]
fn empty_layout_is_well_formed() {
    let layout = BindingLayout::for_fields(0);
    assert!(layout.entries.is_empty());
    assert!(layout.is_well_formed());
}

#[test]
fn layout_with_gap_or_repeat_is_malformed() {
    let mut layout = BindingLayout::for_fields(3);
    layout.entries[2].binding = 3;
    assert!(!layout.is_well_formed());
    layout.entries[2].binding = 1;
    assert!(!layout.is_well_formed());
    layout.entries[2].binding = 2;
    assert!(layout.is_well_formed());
    layout.entries.swap(0, 1);
    assert!(!layout.is_well_formed());
}

#[test]
fn bind_group_binds_buffer_i_to_slot_i_over_its_whole_range() {
    let layout = BindingLayout::for_fields(4);
    let group = assemble_bind_group(&layout, &buffers(4, 800_000), 800_000).unwrap();
    assert_eq!(group.bindings.len(), 4);
    for (i, binding) in group.bindings.iter().enumerate() {
        assert_eq!(*binding, Binding { binding: i as u32, buffer: i, start: 0, end: 800_000 });
    }
}

#[test]
fn mismatched_buffer_count_is_a_configuration_error() {
    let layout = BindingLayout::for_fields(4);
    let fewer = assemble_bind_group(&layout, &buffers(3, 800_000), 800_000);
    assert!(matches!(
        fewer,
        Err(RunError::Config(ConfigError::SlotCountMismatch { slots: 4, buffers: 3 }))
    ));
    let more = assemble_bind_group(&layout, &buffers(5, 800_000), 800_000);
    assert!(matches!(
        more,
        Err(RunError::Config(ConfigError::SlotCountMismatch { slots: 4, buffers: 5 }))
    ));
    let none = assemble_bind_group(&layout, &buffers(0, 800_000), 800_000);
    assert!(matches!(
        none,
        Err(RunError::Config(ConfigError::SlotCountMismatch { slots: 4, buffers: 0 }))
    ));
}

#[test]
fn buffer_of_another_length_is_a_configuration_error() {
    let layout = BindingLayout::for_fields(4);
    let mut list = buffers(4, 800_000);
    list[2].byte_len = 799_996;
    list[3].byte_len = 800_004;
    let group = assemble_bind_group(&layout, &list, 800_000);
    assert!(matches!(
        group,
        Err(RunError::Config(ConfigError::FieldLengthMismatch { slot: 2 }))
    ));
}

#[test]
fn malformed_layout_is_reported_first() {
    let mut layout = BindingLayout::for_fields(2);
    layout.entries[1].binding = 7;
    let group = assemble_bind_group(&layout, &buffers(3, 8), 16);
    assert!(matches!(group, Err(RunError::Config(ConfigError::MalformedLayout))));
}

#[test]
fn empty_bind_group_for_empty_layout() {
    let layout = BindingLayout::for_fields(0);
    let group = assemble_bind_group(&layout, &buffers(0, 0), 0).unwrap();
    assert!(group.bindings.is_empty());
}
