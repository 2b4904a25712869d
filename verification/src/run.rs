//! The run as a sequence of steps: what to ask of the device next, given
//! what it answered last.
//!
//! The caller owns the device. It performs each action that `step` hands
//! out and reports what came of it as the next event. The run goes once
//! through adapter, device, field buffers, layout, pipeline, bind group and
//! dispatch, then maps the first field to preview it, releases it, and hands
//! it to the export, which reads it back for itself. Any failure ends the
//! run.

use vstd::prelude::*;
use crate::buffer::{mappable, FieldBuffer, MapRequest, MapState};
use crate::error::{ConfigError, RunError, ShaderDecodeError};
use crate::field::{field_usage, FieldUsage};
use crate::grid::{ceil_div, dispatch_size, DispatchSize, BUFFER_SIZE, HEIGHT, LOCAL_GROUP_SIZE, WIDTH};

verus! {

/// Number of scalar fields of a run: pressure, the right-hand side of the
/// pressure equation, and the two components of the velocity.
pub const FIELD_COUNT: usize = 4;

/// Slot of the field that is previewed and exported: the pressure.
pub const PRESSURE_SLOT: usize = 0;

/// Which adapter to prefer where several match.
#[derive(Clone, Copy, Debug, PartialEq, Eq, Structural)]
pub enum PowerPreference {
    /// No preference.
    Default,
    /// The adapter that draws least power.
    LowPower,
    /// The fastest adapter.
    HighPerformance,
}

/// The class of backends an adapter is taken from.
#[derive(Clone, Copy, Debug, PartialEq, Eq, Structural)]
pub enum BackendClass {
    /// The backends with first-class support.
    Primary,
    /// The backends with best-effort support.
    Secondary,
}

/// What an adapter is requested with.
#[derive(Clone, Copy, Debug, PartialEq, Eq, Structural)]
pub struct AdapterRequest {
    pub power_preference: PowerPreference,
    pub backends: BackendClass,
}

/// How far the run has come: what was asked of the device last.
#[derive(Clone, Copy, Debug, PartialEq, Eq, Structural)]
pub enum Stage {
    /// Nothing was asked yet.
    Start,
    /// An adapter was requested.
    Adapter,
    /// A device and its queue were requested.
    Device,
    /// A field buffer is being created.
    Fields,
    /// The binding layout is being created.
    Layout,
    /// The pipeline is being built.
    Pipeline,
    /// The bind group is being assembled.
    BindGroup,
    /// The compute pass was handed over for submission.
    Dispatch,
    /// The read mapping for the preview is pending.
    PreviewMap,
    /// The field is mapped and being previewed.
    PreviewRead,
    /// The field was released and handed to the export.
    Export,
    /// The run has ended well.
    Finished,
    /// The run has ended with an error.
    Failed,
}

/// What the caller reports.
#[derive(Clone, Debug)]
pub enum Event {
    /// The run is to start.
    Begin,
    /// An adapter was found.
    AdapterFound,
    /// No adapter matches the request.
    AdapterMissing,
    /// The device and its queue are there.
    DeviceReady,
    /// A field buffer was created with this length.
    FieldCreated { byte_len: u64 },
    /// The binding layout was created.
    LayoutCreated,
    /// The pipeline was built.
    PipelineCreated,
    /// The shader binary was refused.
    ShaderRejected { reason: ShaderDecodeError },
    /// The bind group was assembled.
    BindGroupCreated,
    /// The command buffer was submitted.
    Submitted,
    /// The pending map request was answered.
    MapResolved { granted: bool },
    /// The preview was written.
    Previewed,
    /// The image was written.
    Exported,
    /// The image could not be written.
    ExportFailed { error: RunError },
}

/// What the caller is to do next.
#[derive(Clone, Debug)]
pub enum Action {
    /// Request an adapter.
    RequestAdapter { options: AdapterRequest },
    /// Request a device and its queue, with default features and limits.
    RequestDevice,
    /// Create the zero-filled buffer of the field in this slot.
    CreateField { slot: usize },
    /// Create the layout of this many field slots.
    CreateLayout { slots: u32 },
    /// Decode the shader and build the pipeline over the layout.
    CreatePipeline,
    /// Bind each field buffer to the slot of its place.
    CreateBindGroup,
    /// Record one compute pass with one dispatch of this size, and submit it.
    Dispatch { size: DispatchSize },
    /// Request this read mapping of the field in this slot, and wait for the
    /// device to answer.
    MapRead { slot: usize, request: MapRequest },
    /// Show the first samples of the mapped field, then release the mapping.
    Preview { slot: usize, samples: usize },
    /// Read the field in this slot back and write it as the red channel of
    /// an image.
    Export { red: usize },
    /// Nothing is left to do.
    Finish,
    /// Report the error and stop.
    Fail { error: RunError },
}

/// A run seen as a value: its stage and the records of its field buffers,
/// in the order of their slots.
pub struct RunState {
    pub stage: Stage,
    pub buffers: Seq<FieldBuffer>,
}

/// A run in progress.
#[derive(Debug)]
pub struct Run {
    stage: Stage,
    buffers: Vec<FieldBuffer>,
}

/// The request of a run for its adapter: no power preference, primary
/// backends.
pub open spec fn adapter_request() -> AdapterRequest {
    AdapterRequest { power_preference: PowerPreference::Default, backends: BackendClass::Primary }
}

/// The record of a field buffer as it is created.
pub open spec fn fresh_field() -> FieldBuffer {
    FieldBuffer { byte_len: BUFFER_SIZE, usage: field_usage(), state: MapState::Unmapped }
}

/// The size of the run's one dispatch.
pub open spec fn run_dispatch() -> DispatchSize {
    DispatchSize { x: ceil_div((WIDTH * HEIGHT) as nat, LOCAL_GROUP_SIZE as nat) as u32, y: 1, z: 1 }
}

/// The request that maps a whole field.
pub open spec fn whole_field() -> MapRequest {
    MapRequest { offset: 0, size: BUFFER_SIZE }
}

/// The state with the pressure buffer in another mapping state.
pub open spec fn with_pressure(s: RunState, stage: Stage, state: MapState) -> RunState {
    RunState {
        stage,
        buffers: s.buffers.update(
            PRESSURE_SLOT as int,
            FieldBuffer { state, ..s.buffers[PRESSURE_SLOT as int] },
        ),
    }
}

/// The state in which the run has failed.
pub open spec fn failed(s: RunState) -> RunState {
    RunState { stage: Stage::Failed, ..s }
}

/// The state at another stage.
pub open spec fn at_stage(s: RunState, stage: Stage) -> RunState {
    RunState { stage, ..s }
}

/// The end of a run on an event that its stage does not await.
pub open spec fn out_of_sequence(s: RunState) -> (RunState, Action) {
    (failed(s), Action::Fail { error: RunError::Config(ConfigError::OutOfSequence) })
}

/// Asking for the pressure buffer to be mapped: the request is made where
/// the buffer can be mapped, and the run fails where it cannot.
pub open spec fn request_pressure(s: RunState, stage: Stage) -> (RunState, Action) {
    if mappable(s.buffers[PRESSURE_SLOT as int], 0, BUFFER_SIZE) {
        (
            with_pressure(s, stage, MapState::Pending),
            Action::MapRead { slot: PRESSURE_SLOT, request: whole_field() },
        )
    } else {
        (failed(s), Action::Fail { error: RunError::MappingFailed })
    }
}

/// The answer to a pending request for the pressure buffer: mapped, the run
/// goes on with `action`; refused, it fails.
pub open spec fn resolve_pressure(s: RunState, granted: bool, stage: Stage, action: Action) -> (
    RunState,
    Action,
) {
    if granted {
        (with_pressure(s, stage, MapState::Mapped), action)
    } else {
        (
            with_pressure(s, Stage::Failed, MapState::Unmapped),
            Action::Fail { error: RunError::MappingFailed },
        )
    }
}

/// The state after an event, and the action that answers it.
pub open spec fn transition(s: RunState, event: Event) -> (RunState, Action) {
    match (s.stage, event) {
        (Stage::Start, Event::Begin) => (
            at_stage(s, Stage::Adapter),
            Action::RequestAdapter { options: adapter_request() },
        ),
        (Stage::Adapter, Event::AdapterFound) => (
            at_stage(s, Stage::Device),
            Action::RequestDevice,
        ),
        (Stage::Adapter, Event::AdapterMissing) => (
            failed(s),
            Action::Fail { error: RunError::NoAdapterAvailable },
        ),
        (Stage::Device, Event::DeviceReady) => (
            at_stage(s, Stage::Fields),
            Action::CreateField { slot: 0 },
        ),
        (Stage::Fields, Event::FieldCreated { byte_len }) => {
            if byte_len != BUFFER_SIZE {
                (
                    failed(s),
                    Action::Fail {
                        error: RunError::Config(
                            ConfigError::FieldLengthMismatch { slot: s.buffers.len() as usize },
                        ),
                    },
                )
            } else if s.buffers.len() + 1 < FIELD_COUNT {
                (
                    RunState { stage: Stage::Fields, buffers: s.buffers.push(fresh_field()) },
                    Action::CreateField { slot: (s.buffers.len() + 1) as usize },
                )
            } else {
                (
                    RunState { stage: Stage::Layout, buffers: s.buffers.push(fresh_field()) },
                    Action::CreateLayout { slots: 4 },
                )
            }
        },
        (Stage::Layout, Event::LayoutCreated) => (
            at_stage(s, Stage::Pipeline),
            Action::CreatePipeline,
        ),
        (Stage::Pipeline, Event::PipelineCreated) => (
            at_stage(s, Stage::BindGroup),
            Action::CreateBindGroup,
        ),
        (Stage::Pipeline, Event::ShaderRejected { reason }) => (
            failed(s),
            Action::Fail { error: RunError::ShaderDecode(reason) },
        ),
        (Stage::BindGroup, Event::BindGroupCreated) => (
            at_stage(s, Stage::Dispatch),
            Action::Dispatch { size: run_dispatch() },
        ),
        (Stage::Dispatch, Event::Submitted) => request_pressure(s, Stage::PreviewMap),
        (Stage::PreviewMap, Event::MapResolved { granted }) => resolve_pressure(
            s,
            granted,
            Stage::PreviewRead,
            Action::Preview { slot: PRESSURE_SLOT, samples: 12 },
        ),
        (Stage::PreviewRead, Event::Previewed) => (
            with_pressure(s, Stage::Export, MapState::Unmapped),
            Action::Export { red: PRESSURE_SLOT },
        ),
        (Stage::Export, Event::Exported) => (at_stage(s, Stage::Finished), Action::Finish),
        (Stage::Export, Event::ExportFailed { error }) => (failed(s), Action::Fail { error }),
        _ => out_of_sequence(s),
    }
}

/// The mapping state that the pressure buffer has at a stage.
pub open spec fn pressure_state_at(stage: Stage) -> MapState {
    match stage {
        Stage::PreviewMap => MapState::Pending,
        Stage::PreviewRead => MapState::Mapped,
        _ => MapState::Unmapped,
    }
}

/// Number of field buffers that exist at a stage, where the stage fixes it.
pub open spec fn fields_at(stage: Stage, n: nat) -> bool {
    match stage {
        Stage::Start | Stage::Adapter | Stage::Device => n == 0,
        Stage::Fields => n < FIELD_COUNT,
        Stage::Failed => n <= FIELD_COUNT,
        _ => n == FIELD_COUNT,
    }
}

/// The state is one that a run can be in: the buffers that its stage calls
/// for exist, each has the byte length and the usage of a field, and none is
/// mapped or about to be but the pressure buffer while it is previewed. A
/// failed run may leave a mapping behind.
pub open spec fn consistent(s: RunState) -> bool {
    &&& fields_at(s.stage, s.buffers.len())
    &&& forall|i: int|
        0 <= i < s.buffers.len() ==> {
            &&& (#[trigger] s.buffers[i]).byte_len == BUFFER_SIZE
            &&& s.buffers[i].usage == field_usage()
            &&& s.stage != Stage::Failed ==> s.buffers[i].state == if i == PRESSURE_SLOT {
                pressure_state_at(s.stage)
            } else {
                MapState::Unmapped
            }
        }
}

/// Every step leads from a consistent state to a consistent state.
pub proof fn lemma_transition_is_consistent(s: RunState, event: Event)
    requires
        consistent(s),
    ensures
        consistent(transition(s, event).0),
{
    let next = transition(s, event).0;
    assert forall|i: int| 0 <= i < next.buffers.len() implies {
        &&& (#[trigger] next.buffers[i]).byte_len == BUFFER_SIZE
        &&& next.buffers[i].usage == field_usage()
        &&& next.stage != Stage::Failed ==> next.buffers[i].state == if i == PRESSURE_SLOT {
            pressure_state_at(next.stage)
        } else {
            MapState::Unmapped
        }
    } by {
        if i < s.buffers.len() {
            assert(s.buffers[i].byte_len == BUFFER_SIZE);
        }
    }
}

/// A compute pass is handed out only while no field buffer is mapped or
/// about to be.
pub proof fn lemma_dispatch_finds_fields_unmapped(s: RunState, event: Event, i: int)
    requires
        consistent(s),
        transition(s, event).1 is Dispatch,
        0 <= i < s.buffers.len(),
    ensures
        transition(s, event).0.buffers.len() == FIELD_COUNT,
        transition(s, event).0.buffers[i].state == MapState::Unmapped,
{
}

/// A mapping is requested of the pressure buffer alone, after the dispatch,
/// of a buffer that the device owns, and leaves it pending: no buffer is
/// asked for twice at a time.
pub proof fn lemma_map_request_finds_field_unmapped(s: RunState, event: Event)
    requires
        consistent(s),
        transition(s, event).1 is MapRead,
    ensures
        s.stage == Stage::Dispatch,
        transition(s, event).1->MapRead_slot == PRESSURE_SLOT,
        s.buffers[PRESSURE_SLOT as int].state == MapState::Unmapped,
        transition(s, event).0.buffers[PRESSURE_SLOT as int].state == MapState::Pending,
{
}

/// A refused mapping ends the run with `MappingFailed` and releases the
/// buffer.
pub proof fn lemma_refused_mapping_ends_run(s: RunState)
    requires
        s.stage == Stage::PreviewMap,
    ensures
        transition(s, Event::MapResolved { granted: false }) == (
            with_pressure(s, Stage::Failed, MapState::Unmapped),
            Action::Fail { error: RunError::MappingFailed },
        ),
{
}

/// Where the pressure buffer cannot be mapped when its mapping is due,
/// because it is mapped or about to be, the run ends with `MappingFailed`
/// and no request is handed out.
pub proof fn lemma_unmappable_pressure_ends_run(s: RunState)
    requires
        s.stage == Stage::Dispatch,
        !mappable(s.buffers[PRESSURE_SLOT as int], 0, BUFFER_SIZE),
    ensures
        transition(s, Event::Submitted) == (
            failed(s),
            Action::Fail { error: RunError::MappingFailed },
        ),
{
}

/// The export is handed out only once the preview is done, and finds every
/// field buffer released, so that it can map the pressure buffer as a
/// whole.
pub proof fn lemma_export_finds_fields_released(s: RunState, event: Event)
    requires
        consistent(s),
        transition(s, event).1 is Export,
    ensures
        s.stage == Stage::PreviewRead,
        event is Previewed,
        transition(s, event).1->Export_red == PRESSURE_SLOT,
        transition(s, event).0.stage == Stage::Export,
        forall|i: int|
            0 <= i < FIELD_COUNT ==> (#[trigger] transition(s, event).0.buffers[i]).state
                == MapState::Unmapped,
        mappable(transition(s, event).0.buffers[PRESSURE_SLOT as int], 0, BUFFER_SIZE),
{
    let next = transition(s, event).0;
    assert(next.buffers[PRESSURE_SLOT as int].byte_len == BUFFER_SIZE);
    assert forall|i: int| 0 <= i < FIELD_COUNT implies (#[trigger] next.buffers[i]).state
        == MapState::Unmapped by {
        if i != PRESSURE_SLOT {
            assert(s.buffers[i].state == MapState::Unmapped);
        }
    }
}

/// An export that fails ends the run with its error: a mapping that the
/// export was refused ends it with `MappingFailed`.
pub proof fn lemma_failed_export_ends_run(s: RunState, error: RunError)
    requires
        s.stage == Stage::Export,
    ensures
        transition(s, Event::ExportFailed { error }) == (failed(s), Action::Fail { error }),
{
}

/// A run that has failed stays failed: whatever is reported, it answers
/// with a failure, so nothing is dispatched, mapped or exported after an
/// error.
pub proof fn lemma_failed_run_stays_failed(s: RunState, event: Event)
    requires
        s.stage == Stage::Failed,
    ensures
        transition(s, event) == out_of_sequence(s),
        transition(s, event).0.stage == Stage::Failed,
        transition(s, event).1 is Fail,
{
}

/// How far a state is from the start of the run: stages count in their
/// order, and within the creation of the fields each buffer counts.
pub open spec fn progress(s: RunState) -> int {
    8 * match s.stage {
        Stage::Start => 0int,
        Stage::Adapter => 1,
        Stage::Device => 2,
        Stage::Fields => 3,
        Stage::Layout => 4,
        Stage::Pipeline => 5,
        Stage::BindGroup => 6,
        Stage::Dispatch => 7,
        Stage::PreviewMap => 8,
        Stage::PreviewRead => 9,
        Stage::Export => 10,
        Stage::Finished => 11,
        Stage::Failed => 12,
    } + s.buffers.len()
}

/// Every step of a run that has not failed takes it further: no stage comes
/// twice, so each action is handed out at most once, but for the creation
/// of one buffer per field.
pub proof fn lemma_run_advances(s: RunState, event: Event)
    requires
        consistent(s),
        s.stage != Stage::Failed,
    ensures
        progress(transition(s, event).0) > progress(s),
{
}

/// A compute pass is handed out only on the way from the bind group to the
/// dispatch stage: once in a run.
pub proof fn lemma_one_dispatch(s: RunState, event: Event)
    requires
        transition(s, event).1 is Dispatch,
    ensures
        s.stage == Stage::BindGroup,
        transition(s, event).0.stage == Stage::Dispatch,
        transition(s, event).1->Dispatch_size == run_dispatch(),
{
}

impl View for Run {
    type V = RunState;

    closed spec fn view(&self) -> RunState {
        RunState { stage: self.stage, buffers: self.buffers@ }
    }
}

impl Run {
    /// A run that has not started.
    pub fn new() -> (run: Run)
        ensures
            run@ == (RunState { stage: Stage::Start, buffers: Seq::empty() }),
            consistent(run@),
    {
        Run { stage: Stage::Start, buffers: Vec::new() }
    }

    /// How far the run has come.
    pub fn stage(&self) -> (stage: Stage)
        ensures
            stage == self@.stage,
    {
        self.stage
    }

    /// The records of the field buffers created so far, in slot order.
    pub fn buffers(&self) -> (buffers: &Vec<FieldBuffer>)
        ensures
            buffers@ == self@.buffers,
    {
        &self.buffers
    }

    /// Whether the run is in a state that a run can be in.
    pub fn is_consistent(&self) -> (ok: bool)
        ensures
            ok == consistent(self@),
    {
        let n = self.buffers.len();
        let count_fits = match self.stage {
            Stage::Start | Stage::Adapter | Stage::Device => n == 0,
            Stage::Fields => n < FIELD_COUNT,
            Stage::Failed => n <= FIELD_COUNT,
            _ => n == FIELD_COUNT,
        };
        if !count_fits {
            return false;
        }
        let expected = match self.stage {
            Stage::PreviewMap => MapState::Pending,
            Stage::PreviewRead => MapState::Mapped,
            _ => MapState::Unmapped,
        };
        let failed = self.stage == Stage::Failed;
        let mut i: usize = 0;
        while i < n
            invariant
                n == self.buffers@.len(),
                i <= n,
                failed == (self.stage == Stage::Failed),
                expected == pressure_state_at(self.stage),
                forall|j: int|
                    0 <= j < i ==> {
                        &&& (#[trigger] self.buffers@[j]).byte_len == BUFFER_SIZE
                        &&& self.buffers@[j].usage == field_usage()
                        &&& self.stage != Stage::Failed ==> self.buffers@[j].state == if j
                            == PRESSURE_SLOT {
                            pressure_state_at(self.stage)
                        } else {
                            MapState::Unmapped
                        }
                    },
            decreases n - i,
        {
            let buffer = self.buffers[i];
            let usage_fits = buffer.usage.map_read && buffer.usage.uniform && buffer.usage.storage;
            let wanted = if i == PRESSURE_SLOT {
                expected
            } else {
                MapState::Unmapped
            };
            if buffer.byte_len != BUFFER_SIZE || !usage_fits || (!failed && buffer.state
                != wanted) {
                return false;
            }
            i += 1;
        }
        true
    }

    /// Fails the run with `error`.
    fn fail(&mut self, error: RunError) -> (action: Action)
        ensures
            final(self)@ == failed(old(self)@),
            action == (Action::Fail { error }),
    {
        self.stage = Stage::Failed;
        Action::Fail { error }
    }

    /// Moves the run to `stage` and hands out `action`.
    fn advance(&mut self, stage: Stage, action: Action) -> (next: Action)
        ensures
            final(self)@ == at_stage(old(self)@, stage),
            next == action,
    {
        self.stage = stage;
        action
    }

    /// Moves the run to `stage` with the pressure buffer in `state`.
    fn set_pressure(&mut self, stage: Stage, state: MapState)
        requires
            PRESSURE_SLOT < old(self)@.buffers.len(),
        ensures
            final(self)@ == with_pressure(old(self)@, stage, state),
    {
        let mut buffer = self.buffers[PRESSURE_SLOT];
        buffer.state = state;
        self.buffers.set(PRESSURE_SLOT, buffer);
        self.stage = stage;
    }

    /// Asks for the pressure buffer to be mapped and moves to `stage`, or
    /// fails the run where the buffer cannot be mapped.
    fn map_pressure(&mut self, stage: Stage) -> (action: Action)
        requires
            PRESSURE_SLOT < old(self)@.buffers.len(),
        ensures
            (final(self)@, action) == request_pressure(old(self)@, stage),
    {
        let mut buffer = self.buffers[PRESSURE_SLOT];
        match buffer.map_read(0, BUFFER_SIZE) {
            Ok(request) => {
                self.buffers.set(PRESSURE_SLOT, buffer);
                self.stage = stage;
                proof {
                    assert(self@.buffers =~= request_pressure(old(self)@, stage).0.buffers);
                }
                Action::MapRead { slot: PRESSURE_SLOT, request }
            },
            Err(_) => self.fail(RunError::MappingFailed),
        }
    }

    /// Takes the device's answer to the pending request for the pressure
    /// buffer: granted, the run moves to `stage` with `action`; refused, it
    /// fails.
    fn pressure_resolved(&mut self, granted: bool, stage: Stage, action: Action) -> (next: Action)
        requires
            PRESSURE_SLOT < old(self)@.buffers.len(),
        ensures
            (final(self)@, next) == resolve_pressure(old(self)@, granted, stage, action),
    {
        if granted {
            self.set_pressure(stage, MapState::Mapped);
            action
        } else {
            self.set_pressure(Stage::Failed, MapState::Unmapped);
            Action::Fail { error: RunError::MappingFailed }
        }
    }

    /// Takes what the caller reports and says what it is to do next.
    ///
    /// An event that the stage awaits moves the run on; a failure that the
    /// caller reports, a field buffer of another length than a field has,
    /// and an event out of its turn end it.
    pub fn step(&mut self, event: Event) -> (action: Action)
        requires
            consistent(old(self)@),
        ensures
            (final(self)@, action) == transition(old(self)@, event),
            consistent(final(self)@),
    {
        proof {
            lemma_transition_is_consistent(self@, event);
        }
        let size = run_dispatch_size();
        match (self.stage, event) {
            (Stage::Start, Event::Begin) => self.advance(
                Stage::Adapter,
                Action::RequestAdapter {
                    options: AdapterRequest {
                        power_preference: PowerPreference::Default,
                        backends: BackendClass::Primary,
                    },
                },
            ),
            (Stage::Adapter, Event::AdapterFound) => self.advance(
                Stage::Device,
                Action::RequestDevice,
            ),
            (Stage::Adapter, Event::AdapterMissing) => self.fail(RunError::NoAdapterAvailable),
            (Stage::Device, Event::DeviceReady) => self.advance(
                Stage::Fields,
                Action::CreateField { slot: 0 },
            ),
            (Stage::Fields, Event::FieldCreated { byte_len }) => {
                let created = self.buffers.len();
                if byte_len != BUFFER_SIZE {
                    self.fail(RunError::Config(ConfigError::FieldLengthMismatch { slot: created }))
                } else {
                    self.buffers.push(
                        FieldBuffer::new(
                            BUFFER_SIZE,
                            FieldUsage { map_read: true, uniform: true, storage: true },
                        ),
                    );
                    if created + 1 < FIELD_COUNT {
                        Action::CreateField { slot: created + 1 }
                    } else {
                        self.stage = Stage::Layout;
                        Action::CreateLayout { slots: 4 }
                    }
                }
            },
            (Stage::Layout, Event::LayoutCreated) => self.advance(
                Stage::Pipeline,
                Action::CreatePipeline,
            ),
            (Stage::Pipeline, Event::PipelineCreated) => self.advance(
                Stage::BindGroup,
                Action::CreateBindGroup,
            ),
            (Stage::Pipeline, Event::ShaderRejected { reason }) => self.fail(
                RunError::ShaderDecode(reason),
            ),
            (Stage::BindGroup, Event::BindGroupCreated) => self.advance(
                Stage::Dispatch,
                Action::Dispatch { size },
            ),
            (Stage::Dispatch, Event::Submitted) => self.map_pressure(Stage::PreviewMap),
            (Stage::PreviewMap, Event::MapResolved { granted }) => self.pressure_resolved(
                granted,
                Stage::PreviewRead,
                Action::Preview { slot: PRESSURE_SLOT, samples: 12 },
            ),
            (Stage::PreviewRead, Event::Previewed) => {
                self.set_pressure(Stage::Export, MapState::Unmapped);
                Action::Export { red: PRESSURE_SLOT }
            },
            (Stage::Export, Event::Exported) => self.advance(Stage::Finished, Action::Finish),
            (Stage::Export, Event::ExportFailed { error }) => self.fail(error),
            _ => self.fail(RunError::Config(ConfigError::OutOfSequence)),
        }
    }
}

/// The size of the run's one dispatch: 3125 workgroups in the first
/// dimension, one in each of the others.
pub fn run_dispatch_size() -> (size: DispatchSize)
    ensures
        size == run_dispatch(),
        size == (DispatchSize { x: 3125, y: 1, z: 1 }),
{
    let size = dispatch_size(WIDTH * HEIGHT);
    proof {
        assert((200_000 + 64 - 1) / 64 == 3125int);
    }
    match size {
        Some(size) => size,
        None => DispatchSize { x: 3125, y: 1, z: 1 },
    }
}

} // verus!
