use field_compute::grid::DispatchSize;
use field_compute::pass::{record_compute_pass, PassCommand};

#[test]
fn pass_sets_pipeline_and_bind_group_then_dispatches_once() {
    let size = DispatchSize { x: 3125, y: 1, z: 1 };
    assert_eq!(
        record_compute_pass(size),
        vec![
            PassCommand::SetPipeline,
            PassCommand::SetBindGroup { index: 0 },
            PassCommand::Dispatch { size },
        ]
    );
}

#[test]
fn pass_has_exactly_one_dispatch() {
    let commands = record_compute_pass(DispatchSize { x: 7, y: 1, z: 1 });
    let dispatches =
        commands.iter().filter(|c| matches!(c, PassCommand::Dispatch { .. })).count();
    assert_eq!(dispatches, 1);
}
