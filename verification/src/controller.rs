//! The frame controller: it owns the accumulation buffer, decides on each host
//! tick whether a frame is due, and produces the frame when it is.

use vstd::prelude::*;
use crate::buffer::AccumulationBuffer;
use crate::grid::{lemma_encoding_unique, Grid};
use crate::sampler::{frame_path, run_sampler, spec_paths, SimulationParameters};

verus! {

/// The cadence of frames: one frame every `interval` host ticks.
#[derive(Clone, Copy, Debug)]
pub struct FrameSchedule {
    interval: u64,
}

impl FrameSchedule {
    #[verifier::type_invariant]
    spec fn positive(self) -> bool {
        self.interval >= 1
    }

    /// Number of host ticks from one frame to the next.
    pub closed spec fn spec_interval(self) -> nat {
        self.interval as nat
    }

    /// Whether a frame is due at host tick `tick`.
    pub open spec fn spec_due(self, tick: u64) -> bool {
        tick as nat % self.spec_interval() == 0
    }

    /// The schedule with `host_tick_rate / target_frame_rate` ticks a frame,
    /// or `None` when that quotient is undefined or zero.
    pub fn new(host_tick_rate: u32, target_frame_rate: u32) -> (made: Option<FrameSchedule>)
        ensures
            made.is_some() <==> 0 < target_frame_rate <= host_tick_rate,
            made matches Some(schedule) ==> schedule.spec_interval() == host_tick_rate as nat
                / target_frame_rate as nat,
    {
        if target_frame_rate == 0 || target_frame_rate > host_tick_rate {
            return None;
        }
        let interval = (host_tick_rate / target_frame_rate) as u64;
        assert(host_tick_rate as nat / target_frame_rate as nat >= 1) by (nonlinear_arith)
            requires
                0 < target_frame_rate <= host_tick_rate,
        ;
        Some(FrameSchedule { interval })
    }

    /// Number of host ticks from one frame to the next; never zero.
    pub fn interval(&self) -> (ticks: u64)
        ensures
            ticks == self.spec_interval(),
            ticks >= 1,
    {
        proof {
            use_type_invariant(self);
        }
        self.interval
    }

    /// Whether a frame is due at host tick `tick`: on the multiples of the
    /// interval.
    pub fn is_due(&self, tick: u64) -> (due: bool)
        ensures
            due == self.spec_due(tick),
    {
        proof {
            use_type_invariant(self);
        }
        tick % self.interval == 0
    }
}

/// What a frame controller is, as a value.
pub struct ControllerState {
    /// The accumulation buffer.
    pub grid: Grid,
    /// Host ticks from one frame to the next.
    pub interval: nat,
    /// The counts that the sampler runs with.
    pub params: SimulationParameters,
    /// Number of frames produced so far, which is the sequence number of the
    /// next one.
    pub produced: nat,
}

impl ControllerState {
    /// Whether a frame is due at host tick `tick`.
    pub open spec fn due(self, tick: u64) -> bool {
        tick as nat % self.interval == 0
    }

    /// The controller after it has produced a frame from `trajectories`: the
    /// buffer was cleared, the landings of the frame were plotted, and the
    /// count of frames went up by one.
    pub open spec fn advanced(self, trajectories: Seq<Seq<(u32, u32)>>) -> ControllerState {
        ControllerState {
            grid: self.grid.cleared().traced(
                frame_path(
                    trajectories,
                    self.params.samples_per_frame as nat,
                    self.params.iterations_per_sample as nat,
                ),
            ),
            produced: self.produced + 1,
            ..self
        }
    }
}

/// A frame is a function of the state it starts from and of the trajectories
/// it is given: whatever bytes encode the buffer after it, they are the same
/// bytes every time.
pub proof fn lemma_frame_is_reproducible(
    state: ControllerState,
    trajectories: Seq<Seq<(u32, u32)>>,
    first: Seq<u8>,
    second: Seq<u8>,
)
    requires
        state.advanced(trajectories).grid.encoded_as(first),
        state.advanced(trajectories).grid.encoded_as(second),
    ensures
        first == second,
{
    lemma_encoding_unique(state.advanced(trajectories).grid, first, second);
}

/// A finished frame: its sequence number and a copy of the buffer as it stood
/// when the frame was complete.
pub struct FrameRecord {
    pub sequence: u64,
    pub width: u32,
    pub height: u32,
    /// The cells, row after row, four bytes a cell.
    pub rgba: Vec<u8>,
}

/// The buffer, the cadence, the sampler's counts and the count of frames
/// produced so far.
pub struct FrameController {
    buffer: AccumulationBuffer,
    schedule: FrameSchedule,
    params: SimulationParameters,
    produced: u64,
}

impl View for FrameController {
    type V = ControllerState;

    closed spec fn view(&self) -> ControllerState {
        ControllerState {
            grid: self.buffer@,
            interval: self.schedule.spec_interval(),
            params: self.params,
            produced: self.produced as nat,
        }
    }
}

impl FrameController {
    /// A controller that has produced no frame yet.
    pub fn new(buffer: AccumulationBuffer, schedule: FrameSchedule, params: SimulationParameters) -> (controller:
        FrameController)
        ensures
            controller@ == (ControllerState {
                grid: buffer@,
                interval: schedule.spec_interval(),
                params,
                produced: 0,
            }),
    {
        FrameController { buffer, schedule, params, produced: 0 }
    }

    /// Whether a frame is due at host tick `tick`.
    pub fn is_due(&self, tick: u64) -> (due: bool)
        ensures
            due == self@.due(tick),
    {
        self.schedule.is_due(tick)
    }

    /// Number of frames produced so far.
    pub fn produced_frames(&self) -> (count: u64)
        ensures
            count == self@.produced,
    {
        self.produced
    }

    /// The counts that the sampler runs with.
    pub fn parameters(&self) -> (params: SimulationParameters)
        ensures
            params == self@.params,
    {
        self.params
    }

    /// The buffer as the last frame left it.
    pub fn buffer(&self) -> (buffer: &AccumulationBuffer)
        ensures
            buffer@ == self@.grid,
    {
        &self.buffer
    }

    /// Handles one host tick. When no frame is due nothing changes and there
    /// is no record. When one is due, the buffer is cleared, the landings of
    /// `trajectories` are plotted, and the record of the finished frame carries
    /// the sequence number that the frame was given.
    pub fn advance_if_due(&mut self, tick: u64, trajectories: &Vec<Vec<(u32, u32)>>) -> (frame: Option<
        FrameRecord,
    >)
        requires
            old(self)@.due(tick) ==> old(self)@.produced < u64::MAX,
        ensures
            !old(self)@.due(tick) ==> frame.is_none() && final(self)@ == old(self)@,
            old(self)@.due(tick) ==> final(self)@ == old(self)@.advanced(spec_paths(trajectories@)),
            old(self)@.due(tick) ==> frame.is_some(),
            frame matches Some(record) ==> {
                &&& record.sequence == old(self)@.produced
                &&& record.width == final(self)@.grid.width
                &&& record.height == final(self)@.grid.height
                &&& final(self)@.grid.encoded_as(record.rgba@)
            },
    {
        if !self.schedule.is_due(tick) {
            return None;
        }
        self.buffer.reset();
        run_sampler(&self.params, &mut self.buffer, trajectories);
        let record = FrameRecord {
            sequence: self.produced,
            width: self.buffer.width(),
            height: self.buffer.height(),
            rgba: self.buffer.to_rgba_bytes(),
        };
        self.produced = self.produced + 1;
        Some(record)
    }
}

} // verus!
