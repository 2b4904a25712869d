//! The compute pass: the commands recorded into the one command buffer of a
//! run.

use vstd::prelude::*;
use crate::grid::DispatchSize;

verus! {

/// One command of a compute pass.
#[derive(Clone, Copy, Debug, PartialEq, Eq, Structural)]
pub enum PassCommand {
    /// Make the compute pipeline the active one.
    SetPipeline,
    /// Set the bind group at this index, without dynamic offsets.
    SetBindGroup { index: u32 },
    /// Dispatch this many workgroups.
    Dispatch { size: DispatchSize },
}

/// The commands of the pass that dispatches `size` workgroups: pipeline,
/// bind group zero, and the one dispatch, in that order.
pub open spec fn compute_pass(size: DispatchSize) -> Seq<PassCommand> {
    seq![
        PassCommand::SetPipeline,
        PassCommand::SetBindGroup { index: 0 },
        PassCommand::Dispatch { size },
    ]
}

/// Records the compute pass with one dispatch of `size` workgroups.
pub fn record_compute_pass(size: DispatchSize) -> (commands: Vec<PassCommand>)
    ensures
        commands@ == compute_pass(size),
{
    let mut commands: Vec<PassCommand> = Vec::new();
    commands.push(PassCommand::SetPipeline);
    commands.push(PassCommand::SetBindGroup { index: 0 });
    commands.push(PassCommand::Dispatch { size });
    proof {
        assert(commands@ =~= compute_pass(size));
    }
    commands
}

} // verus!
