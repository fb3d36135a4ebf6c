//! The control loop and its lifecycle: the connection-resilience state
//! machine that drives sampling cycles, and the cooperative shutdown
//! coordination used when a host service manager owns the process.
//!
//! The loop's outside work (connecting, metric reads, LED writes) is done
//! by the caller; this module decides, from the current state and the
//! outcome of that work, what the next state and the next action are, and
//! computes each cycle's color assignments.

use vstd::prelude::*;

use crate::color::{ColorRgb, Load};
use crate::dispatch::{
    assignment_matches, controller_assignment, ControllerTopology, TopologyMismatch,
};
use crate::sampler::{mean_of, spec_push, SmoothedSampler};

verus! {

/// The tri-state shutdown coordination object shared between the
/// lifecycle coordinator (writer) and the control loop (reader).
#[derive(Clone, Copy, Debug, PartialEq, Eq, Structural)]
pub enum ShutdownState {
    Running,
    StopRequested,
    Stopped,
}

impl ShutdownState {
    /// The state at loop startup.
    pub fn new() -> (r: ShutdownState)
        ensures
            r is Running,
    {
        ShutdownState::Running
    }

    /// The host environment asks the loop to stop; once stopped, the
    /// state stays stopped.
    pub fn request_stop(&mut self)
        ensures
            *final(self) == if *old(self) is Stopped {
                ShutdownState::Stopped
            } else {
                ShutdownState::StopRequested
            },
    {
        if !matches!(self, ShutdownState::Stopped) {
            *self = ShutdownState::StopRequested;
        }
    }

    /// The loop acknowledges the stop request on its way out.
    pub fn mark_stopped(&mut self)
        ensures
            *final(self) is Stopped,
    {
        *self = ShutdownState::Stopped;
    }

    /// Whether the loop must unwind instead of starting further work.
    pub fn should_stop(&self) -> (r: bool)
        ensures
            r == !(*self is Running),
    {
        !matches!(self, ShutdownState::Running)
    }
}

/// Where the control loop stands between two pieces of outside work.
#[derive(Clone, Copy, Debug, PartialEq, Eq, Structural)]
pub enum LoopPhase {
    /// No controller connection; about to attempt one.
    Connecting,
    /// Connected; about to initialize the metrics providers and fresh
    /// smoothing buffers for the new session.
    Initializing,
    /// In a session: about to run a sampling cycle.
    Sampling,
    /// Terminal: stopped on request, without error.
    FinishedClean,
    /// Terminal: stopped on an unrecoverable error.
    FinishedError,
}

/// The outcome of the piece of outside work the loop last asked for, or a
/// stop request that won the race against it.
#[derive(Clone, Copy, Debug, PartialEq, Eq, Structural)]
pub enum LoopEvent {
    /// A stop request was observed at a suspension point.
    StopObserved,
    ConnectSucceeded,
    ConnectFailed,
    InitSucceeded,
    InitFailed,
    CycleSucceeded,
    /// Any I/O failure within the cycle (metrics provider or controller
    /// connection).
    CycleFailed,
}

/// What the loop asks its driver to do next.
#[derive(Clone, Copy, Debug, PartialEq, Eq, Structural)]
pub enum LoopAction {
    /// Attempt a controller connection now.
    AttemptConnect,
    /// Wait the fixed retry interval, then attempt a connection.
    BackoffThenConnect,
    /// Initialize the metrics providers and allocate fresh smoothing
    /// buffers.
    InitializeSession,
    /// Run one sampling cycle.
    RunCycle,
    /// Unwind with a clean, non-error completion.
    ExitCleanly,
    /// Unwind with a distinguished error so a hosting service manager can
    /// restart the process.
    ExitWithError,
}

/// The control loop's state: its phase, and whether it runs under a
/// lifecycle coordinator that can deliver stop requests.
#[derive(Clone, Copy, Debug, PartialEq, Eq, Structural)]
pub struct LoopState {
    pub phase: LoopPhase,
    pub service_mode: bool,
}

impl LoopState {
    /// The loop starts disconnected, about to attempt a connection.
    pub fn new(service_mode: bool) -> (r: LoopState)
        ensures
            r.phase is Connecting,
            r.service_mode == service_mode,
    {
        LoopState { phase: LoopPhase::Connecting, service_mode }
    }
}

/// Which events can arrive in which phase: connection outcomes while
/// connecting, initialization outcomes while initializing, cycle outcomes
/// while sampling; a stop request can win only at the suspension points
/// (connecting and sampling), and only under a lifecycle coordinator.
pub open spec fn event_fits(s: LoopState, e: LoopEvent) -> bool {
    match s.phase {
        LoopPhase::Connecting => {
            ||| (e is StopObserved && s.service_mode)
            ||| e is ConnectSucceeded
            ||| e is ConnectFailed
        },
        LoopPhase::Initializing => e is InitSucceeded || e is InitFailed,
        LoopPhase::Sampling => {
            ||| (e is StopObserved && s.service_mode)
            ||| e is CycleSucceeded
            ||| e is CycleFailed
        },
        LoopPhase::FinishedClean => false,
        LoopPhase::FinishedError => false,
    }
}

/// The transition relation of the control loop:
///
/// - a failed connection attempt is retried after a fixed backoff,
///   indefinitely;
/// - a successful connection leads to session initialization, and a
///   session to repeated sampling cycles;
/// - any cycle failure abandons the session and reconnects from scratch
///   (fresh smoothing buffers included);
/// - a failed initialization is unrecoverable;
/// - an observed stop request ends the loop cleanly at once.
pub open spec fn spec_step(s: LoopState, e: LoopEvent) -> (LoopState, LoopAction) {
    let next = |p: LoopPhase, a: LoopAction|
        (LoopState { phase: p, service_mode: s.service_mode }, a);
    if e is StopObserved {
        next(LoopPhase::FinishedClean, LoopAction::ExitCleanly)
    } else {
        match s.phase {
            LoopPhase::Connecting => {
                if e is ConnectSucceeded {
                    next(LoopPhase::Initializing, LoopAction::InitializeSession)
                } else {
                    next(LoopPhase::Connecting, LoopAction::BackoffThenConnect)
                }
            },
            LoopPhase::Initializing => {
                if e is InitSucceeded {
                    next(LoopPhase::Sampling, LoopAction::RunCycle)
                } else {
                    next(LoopPhase::FinishedError, LoopAction::ExitWithError)
                }
            },
            LoopPhase::Sampling => {
                if e is CycleSucceeded {
                    next(LoopPhase::Sampling, LoopAction::RunCycle)
                } else {
                    next(LoopPhase::Connecting, LoopAction::AttemptConnect)
                }
            },
            _ => next(s.phase, LoopAction::ExitCleanly),
        }
    }
}

/// One decision of the control loop: from the current state and the
/// outcome of the last piece of outside work, the next state and the next
/// action.
pub fn step(s: LoopState, e: LoopEvent) -> (r: (LoopState, LoopAction))
    requires
        event_fits(s, e),
    ensures
        r == spec_step(s, e),
{
    let phase = match e {
        LoopEvent::StopObserved => {
            return (
                LoopState { phase: LoopPhase::FinishedClean, service_mode: s.service_mode },
                LoopAction::ExitCleanly,
            );
        },
        LoopEvent::ConnectSucceeded => (LoopPhase::Initializing, LoopAction::InitializeSession),
        LoopEvent::ConnectFailed => (LoopPhase::Connecting, LoopAction::BackoffThenConnect),
        LoopEvent::InitSucceeded => (LoopPhase::Sampling, LoopAction::RunCycle),
        LoopEvent::InitFailed => (LoopPhase::FinishedError, LoopAction::ExitWithError),
        LoopEvent::CycleSucceeded => (LoopPhase::Sampling, LoopAction::RunCycle),
        LoopEvent::CycleFailed => (LoopPhase::Connecting, LoopAction::AttemptConnect),
    };
    (LoopState { phase: phase.0, service_mode: s.service_mode }, phase.1)
}

/// Law: once a stop request is observed at a suspension point, the loop
/// exits cleanly at once — no further cycle is started and no further
/// controller write is asked for.
pub proof fn lemma_stop_wins(s: LoopState, e: LoopEvent)
    requires
        event_fits(s, e),
        e is StopObserved,
    ensures
        spec_step(s, e).0.phase is FinishedClean,
        spec_step(s, e).1 is ExitCleanly,
        !(spec_step(s, e).1 is RunCycle),
{
}

/// What one sampling cycle computes: the two smoothed load signals and,
/// per controller, its LED color assignment or the topology mismatch
/// found in it.
pub struct CycleOutput {
    pub cpu_smoothed: Load,
    pub gpu_smoothed: Load,
    pub assignments: Vec<Result<Vec<ColorRgb>, TopologyMismatch>>,
}

/// The computation of one sampling cycle: push the two raw readings into
/// their histories, read both smoothed signals back, and map every
/// controller's topology through the rule table at those signals.
///
/// The caller performs the outside work around it: it measures the raw
/// readings beforehand and writes the returned assignments out afterwards.
pub fn process_cycle(
    cpu_history: &mut SmoothedSampler,
    gpu_history: &mut SmoothedSampler,
    cpu_raw: Load,
    gpu_raw: Load,
    topologies: &Vec<ControllerTopology>,
    start: &ColorRgb,
    end: &ColorRgb,
) -> (r: CycleOutput)
    requires
        old(cpu_history).wf(),
        old(gpu_history).wf(),
        cpu_raw.is_valid(),
        gpu_raw.is_valid(),
    ensures
        final(cpu_history).wf(),
        final(gpu_history).wf(),
        final(cpu_history).capacity() == old(cpu_history).capacity(),
        final(gpu_history).capacity() == old(gpu_history).capacity(),
        final(cpu_history).samples() == spec_push(
            old(cpu_history).samples(), old(cpu_history).capacity(), cpu_raw.units),
        final(gpu_history).samples() == spec_push(
            old(gpu_history).samples(), old(gpu_history).capacity(), gpu_raw.units),
        r.cpu_smoothed.units == mean_of(final(cpu_history).samples()),
        r.gpu_smoothed.units == mean_of(final(gpu_history).samples()),
        r.cpu_smoothed.is_valid(),
        r.gpu_smoothed.is_valid(),
        r.assignments@.len() == topologies@.len(),
        forall|i: int| 0 <= i < topologies@.len() ==> assignment_matches(
            #[trigger] r.assignments@[i],
            topologies@[i],
            r.cpu_smoothed.units as int,
            r.gpu_smoothed.units as int,
            *start,
            *end,
        ),
{
    cpu_history.push(cpu_raw);
    gpu_history.push(gpu_raw);
    let cpu_smoothed = cpu_history.read();
    let gpu_smoothed = gpu_history.read();
    let mut assignments: Vec<Result<Vec<ColorRgb>, TopologyMismatch>> = Vec::new();
    let mut k: usize = 0;
    let n = topologies.len();
    while k < n
        invariant
            k <= n,
            n == topologies@.len(),
            cpu_smoothed.is_valid(),
            gpu_smoothed.is_valid(),
            assignments@.len() == k,
            forall|i: int| 0 <= i < k ==> assignment_matches(
                #[trigger] assignments@[i],
                topologies@[i],
                cpu_smoothed.units as int,
                gpu_smoothed.units as int,
                *start,
                *end,
            ),
        decreases n - k,
    {
        let a = controller_assignment(&topologies[k], cpu_smoothed, gpu_smoothed, start, end);
        assignments.push(a);
        k = k + 1;
    }
    CycleOutput { cpu_smoothed, gpu_smoothed, assignments }
}

} // verus!
