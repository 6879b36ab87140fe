//! The actuator driver: one pulse on one output line per request.
//!
//! The driver touches no hardware. It says which hardware action comes next,
//! is told what came of it, and says what comes after that, until the pulse
//! is done. Whoever performs the actions owns the pin and the clock.

use vstd::prelude::*;
use crate::error::{HardwareError, HardwareErrorView, Report};
use crate::line::{Acquisition, Level, OutputLine, Signal};

verus! {

/// The pin that the relay is wired to.
pub const GARAGE_PIN: u8 = 2;

/// How long the relay is held, in milliseconds.
pub const HOLD_MS: u64 = 200;

/// Which driver a deployment runs with.
#[derive(Clone, Copy, Debug, PartialEq, Eq, Structural)]
pub enum DriverKind {
    /// Drives a real pin.
    Hardware,
    /// For hosts without GPIO: every pulse succeeds at once and nothing is
    /// touched.
    NoOp,
}

/// What the driver does with the line when the hold is over.
#[derive(Clone, Copy, Debug, PartialEq, Eq, Structural)]
pub enum RestorePolicy {
    /// Drive the line back to its inactive signal.
    Restore,
    /// Leave the line at its active signal.
    LeaveAsIs,
}

/// One actuation: which line, which signal is the active one, and for how
/// long it is held.
#[derive(Clone, Copy, Debug, PartialEq, Eq, Structural)]
pub struct PulseOperation {
    pub line: u8,
    pub active: Signal,
    pub hold_ms: u64,
}

/// Why the GPIO layer refused.
#[derive(Clone, Copy, Debug, PartialEq, Eq, Structural)]
pub enum GpioFault {
    /// The board cannot be told.
    UnknownModel,
    /// The pin is in use elsewhere in the process.
    PinUsed,
    /// The board has no pin of that number.
    PinNotAvailable,
    /// The process may not open the GPIO device.
    PermissionDenied,
    /// The operating system reported an error.
    Io,
    /// A thread of the GPIO layer panicked.
    ThreadPanic,
}

/// What came of a hardware action.
#[derive(Debug, PartialEq, Eq)]
pub enum HardwareEvent {
    /// The GPIO interface is open.
    Opened,
    /// The pin is held as an output.
    Claimed,
    /// The signal was written.
    Driven,
    /// The hold is over.
    Elapsed,
    /// The action failed: the kind of the fault, and what the GPIO layer
    /// reported of it.
    Failed(GpioFault, Report),
}

/// The mathematical content of a [`HardwareEvent`].
pub enum HardwareEventView {
    Opened,
    Claimed,
    Driven,
    Elapsed,
    Failed(GpioFault, Seq<Seq<char>>),
}

impl View for HardwareEvent {
    type V = HardwareEventView;

    open spec fn view(&self) -> HardwareEventView {
        match self {
            HardwareEvent::Opened => HardwareEventView::Opened,
            HardwareEvent::Claimed => HardwareEventView::Claimed,
            HardwareEvent::Driven => HardwareEventView::Driven,
            HardwareEvent::Elapsed => HardwareEventView::Elapsed,
            HardwareEvent::Failed(fault, report) => HardwareEventView::Failed(*fault, report@),
        }
    }
}

/// A hardware action that the driver asks for.
#[derive(Clone, Copy, Debug, PartialEq, Eq, Structural)]
pub enum HardwareAction {
    /// Open the GPIO interface of the host.
    Open,
    /// Claim the pin and configure it as an output.
    Claim(u8),
    /// Write the signal to the pin.
    Drive(u8, Signal),
    /// Suspend for so many milliseconds.
    Hold(u64),
}

/// What comes next in a pulse.
#[derive(Debug, PartialEq, Eq)]
pub enum PulseStep {
    /// Perform the action and report what came of it.
    Perform(HardwareAction),
    /// The pulse is over, with this result.
    Done(Result<(), HardwareError>),
}

/// The mathematical content of a [`PulseStep`].
pub enum PulseStepView {
    Perform(HardwareAction),
    Done(Result<(), HardwareErrorView>),
}

/// The content of the result of a pulse.
pub open spec fn result_view(result: Result<(), HardwareError>) -> Result<(), HardwareErrorView> {
    match result {
        Ok(()) => Ok(()),
        Err(error) => Err(error@),
    }
}

impl View for PulseStep {
    type V = PulseStepView;

    open spec fn view(&self) -> PulseStepView {
        match self {
            PulseStep::Perform(action) => PulseStepView::Perform(*action),
            PulseStep::Done(result) => PulseStepView::Done(result_view(*result)),
        }
    }
}

/// The content of a step that may be absent.
pub open spec fn step_view(step: Option<PulseStep>) -> Option<PulseStepView> {
    match step {
        Some(step) => Some(step@),
        None => None,
    }
}

/// Which answer a pulse in flight waits for.
#[derive(Clone, Copy, Debug, PartialEq, Eq, Structural)]
pub enum Stage {
    /// For the GPIO interface to open.
    Opening,
    /// For the pin to be claimed.
    Claiming,
    /// For the active signal to be written.
    Asserting,
    /// For the hold to be over.
    Holding,
    /// For the inactive signal to be written.
    Releasing,
}

/// A pulse that has begun and is not done.
#[derive(Clone, Copy, Debug, PartialEq, Eq, Structural)]
pub struct InFlight {
    pub op: PulseOperation,
    pub stage: Stage,
}

/// All that a driver knows.
#[derive(Clone, Copy, Debug, PartialEq, Eq, Structural)]
pub struct DriverState {
    pub kind: DriverKind,
    pub restore: RestorePolicy,
    pub line: OutputLine,
    pub pending: Option<InFlight>,
}

/// The error of a claim that the GPIO layer refused: busy if the pin is in
/// use, unavailable for every other reason. What was reported is kept.
pub open spec fn spec_claim_error(fault: GpioFault, report: Seq<Seq<char>>) -> HardwareErrorView {
    match fault {
        GpioFault::PinUsed => HardwareErrorView::PinBusy(report),
        _ => HardwareErrorView::PinUnavailable(report),
    }
}

/// The error of a claim that the GPIO layer refused: busy if the pin is in
/// use, unavailable for every other reason. What was reported is kept.
pub fn claim_error(fault: GpioFault, report: Report) -> (error: HardwareError)
    ensures
        error@ == spec_claim_error(fault, report@),
{
    match fault {
        GpioFault::PinUsed => HardwareError::PinBusy(report),
        _ => HardwareError::PinUnavailable(report),
    }
}

/// The cause of a request that is turned away because a pulse is in flight.
pub open spec fn in_flight_cause() -> Seq<Seq<char>> {
    seq!["a pulse is in flight on the pin"@]
}

/// The cause of a request that names another line than the driver's own.
pub open spec fn other_line_cause() -> Seq<Seq<char>> {
    seq!["the driver holds another pin"@]
}

impl PulseOperation {
    /// The pulse that opens the garage: the relay pin, active low, held for
    /// [`HOLD_MS`].
    pub open spec fn spec_garage() -> PulseOperation {
        PulseOperation { line: GARAGE_PIN, active: Signal::Low, hold_ms: HOLD_MS }
    }

    /// The pulse that opens the garage: the relay pin, active low, held for
    /// [`HOLD_MS`].
    #[verifier::when_used_as_spec(spec_garage)]
    pub fn garage() -> (op: PulseOperation)
        ensures
            op == PulseOperation::spec_garage(),
    {
        PulseOperation { line: GARAGE_PIN, active: Signal::Low, hold_ms: HOLD_MS }
    }
}

impl DriverState {
    /// The state of a driver that has not been used.
    pub open spec fn initial(kind: DriverKind, pin: u8, restore: RestorePolicy) -> DriverState {
        DriverState { kind, restore, line: OutputLine::spec_resting(pin), pending: None }
    }

    /// What every reachable state satisfies.
    ///
    /// A no-op driver never touches its line. A pulse in flight is for the
    /// driver's own line; the line is held from the moment the claim is
    /// granted, and active from the moment the active signal is written
    /// until the inactive one is.
    pub open spec fn wf(self) -> bool {
        &&& self.line.wf()
        &&& self.kind is NoOp ==> self.pending is None && self.line == OutputLine::spec_resting(
            self.line.pin,
        )
        &&& self.pending matches Some(flight) ==> {
            &&& flight.op.line == self.line.pin
            &&& match flight.stage {
                Stage::Opening | Stage::Claiming => self.line.acquisition is Unacquired,
                Stage::Asserting => self.line.acquisition is Output,
                Stage::Holding | Stage::Releasing => self.line.level is Active,
            }
        }
    }

    /// The state with this pulse in flight.
    pub open spec fn with_flight(self, op: PulseOperation, stage: Stage) -> DriverState {
        DriverState { pending: Some(InFlight { op, stage }), ..self }
    }

    /// The state with no pulse in flight.
    pub open spec fn idle(self) -> DriverState {
        DriverState { pending: None, ..self }
    }

    /// The state after a request for `op`, and what comes first.
    ///
    /// A request while a pulse is in flight is turned away as busy. A no-op
    /// driver is done at once. A request for a line that is not the driver's
    /// own cannot be served. Otherwise the line is acquired first, unless the
    /// driver holds it already.
    pub open spec fn begin(self, op: PulseOperation) -> (DriverState, PulseStepView) {
        if self.pending is Some {
            (self, PulseStepView::Done(Err(HardwareErrorView::PinBusy(in_flight_cause()))))
        } else if self.kind is NoOp {
            (self, PulseStepView::Done(Ok(())))
        } else if op.line != self.line.pin {
            (self, PulseStepView::Done(Err(HardwareErrorView::PinUnavailable(other_line_cause()))))
        } else if self.line.acquisition is Unacquired {
            (self.with_flight(op, Stage::Opening), PulseStepView::Perform(HardwareAction::Open))
        } else {
            (
                self.with_flight(op, Stage::Asserting),
                PulseStepView::Perform(HardwareAction::Drive(op.line, op.active)),
            )
        }
    }

    /// The state after `event`, and what comes next.
    ///
    /// The answer that the pulse waits for leads it on. A failure ends the
    /// pulse at whatever stage it comes, with an error that keeps what was
    /// reported, and leaves the line as it is. Any other event changes
    /// nothing and has no next step.
    pub open spec fn step(self, event: HardwareEventView) -> (DriverState, Option<PulseStepView>) {
        match self.pending {
            None => (self, None),
            Some(flight) => {
                let op = flight.op;
                match (flight.stage, event) {
                    (Stage::Opening, HardwareEventView::Opened) => (
                        self.with_flight(op, Stage::Claiming),
                        Some(PulseStepView::Perform(HardwareAction::Claim(op.line))),
                    ),
                    (Stage::Opening, HardwareEventView::Failed(_, report)) => (
                        self.idle(),
                        Some(PulseStepView::Done(Err(HardwareErrorView::Unavailable(report)))),
                    ),
                    (Stage::Claiming, HardwareEventView::Claimed) => (
                        DriverState {
                            line: OutputLine { acquisition: Acquisition::Output, ..self.line },
                            ..self.with_flight(op, Stage::Asserting)
                        },
                        Some(PulseStepView::Perform(HardwareAction::Drive(op.line, op.active))),
                    ),
                    (Stage::Claiming, HardwareEventView::Failed(fault, report)) => (
                        self.idle(),
                        Some(PulseStepView::Done(Err(spec_claim_error(fault, report)))),
                    ),
                    (Stage::Asserting, HardwareEventView::Driven) => (
                        DriverState {
                            line: OutputLine { level: Level::Active, ..self.line },
                            ..self.with_flight(op, Stage::Holding)
                        },
                        Some(PulseStepView::Perform(HardwareAction::Hold(op.hold_ms))),
                    ),
                    (Stage::Holding, HardwareEventView::Elapsed) => match self.restore {
                        RestorePolicy::Restore => (
                            self.with_flight(op, Stage::Releasing),
                            Some(
                                PulseStepView::Perform(
                                    HardwareAction::Drive(op.line, op.active.spec_opposite()),
                                ),
                            ),
                        ),
                        RestorePolicy::LeaveAsIs => (
                            self.idle(),
                            Some(PulseStepView::Done(Ok(()))),
                        ),
                    },
                    (Stage::Releasing, HardwareEventView::Driven) => (
                        DriverState {
                            line: OutputLine { level: Level::Inactive, ..self.line },
                            ..self.idle()
                        },
                        Some(PulseStepView::Done(Ok(()))),
                    ),
                    (_, HardwareEventView::Failed(_, report)) => (
                        self.idle(),
                        Some(PulseStepView::Done(Err(HardwareErrorView::PinUnavailable(report)))),
                    ),
                    _ => (self, None),
                }
            },
        }
    }
}

/// The single owner of the output line.
#[derive(Debug)]
pub struct Driver {
    state: DriverState,
}

impl View for Driver {
    type V = DriverState;

    closed spec fn view(&self) -> DriverState {
        self.state
    }
}

impl Driver {
    #[verifier::type_invariant]
    spec fn well_formed(self) -> bool {
        self.state.wf()
    }

    /// A driver of the given kind for the line on `pin`. Nothing is acquired
    /// yet: the first pulse does that.
    pub fn new(kind: DriverKind, pin: u8, restore: RestorePolicy) -> (driver: Driver)
        ensures
            driver@ == DriverState::initial(kind, pin, restore),
            driver@.wf(),
    {
        Driver {
            state: DriverState { kind, restore, line: OutputLine::resting(pin), pending: None },
        }
    }

    /// All that the driver knows, as a value.
    pub fn state(&self) -> (state: DriverState)
        ensures
            state == self@,
            state.wf(),
    {
        proof {
            use_type_invariant(self);
        }
        self.state
    }

    /// Takes a request for a pulse and says what comes first.
    pub fn begin(&mut self, op: PulseOperation) -> (first: PulseStep)
        ensures
            (final(self)@, first@) == old(self)@.begin(op),
            final(self)@.wf(),
    {
        proof {
            use_type_invariant(&*self);
        }
        let state = self.state;
        if state.pending.is_some() {
            PulseStep::Done(
                Err(HardwareError::PinBusy(Report::of("a pulse is in flight on the pin"))),
            )
        } else if state.kind == DriverKind::NoOp {
            PulseStep::Done(Ok(()))
        } else if op.line != state.line.pin {
            PulseStep::Done(
                Err(HardwareError::PinUnavailable(Report::of("the driver holds another pin"))),
            )
        } else if state.line.acquisition == Acquisition::Unacquired {
            self.state = DriverState {
                pending: Some(InFlight { op, stage: Stage::Opening }),
                ..state
            };
            PulseStep::Perform(HardwareAction::Open)
        } else {
            self.state = DriverState {
                pending: Some(InFlight { op, stage: Stage::Asserting }),
                ..state
            };
            PulseStep::Perform(HardwareAction::Drive(op.line, op.active))
        }
    }

    /// Takes what came of the last action and says what comes next: `None`
    /// if the event is no failure and does not answer the action in flight.
    pub fn step(&mut self, event: HardwareEvent) -> (next: Option<PulseStep>)
        ensures
            (final(self)@, step_view(next)) == old(self)@.step(event@),
            final(self)@.wf(),
    {
        proof {
            use_type_invariant(&*self);
        }
        let state = self.state;
        let flight = match state.pending {
            None => {
                return None;
            },
            Some(flight) => flight,
        };
        let op = flight.op;
        let idle = DriverState { pending: None, ..state };
        match (flight.stage, event) {
            (Stage::Opening, HardwareEvent::Opened) => {
                self.state = DriverState {
                    pending: Some(InFlight { op, stage: Stage::Claiming }),
                    ..state
                };
                Some(PulseStep::Perform(HardwareAction::Claim(op.line)))
            },
            (Stage::Opening, HardwareEvent::Failed(_, report)) => {
                self.state = idle;
                Some(PulseStep::Done(Err(HardwareError::Unavailable(report))))
            },
            (Stage::Claiming, HardwareEvent::Claimed) => {
                self.state = DriverState {
                    line: OutputLine { acquisition: Acquisition::Output, ..state.line },
                    pending: Some(InFlight { op, stage: Stage::Asserting }),
                    ..state
                };
                Some(PulseStep::Perform(HardwareAction::Drive(op.line, op.active)))
            },
            (Stage::Claiming, HardwareEvent::Failed(fault, report)) => {
                self.state = idle;
                Some(PulseStep::Done(Err(claim_error(fault, report))))
            },
            (Stage::Asserting, HardwareEvent::Driven) => {
                self.state = DriverState {
                    line: OutputLine { level: Level::Active, ..state.line },
                    pending: Some(InFlight { op, stage: Stage::Holding }),
                    ..state
                };
                Some(PulseStep::Perform(HardwareAction::Hold(op.hold_ms)))
            },
            (Stage::Holding, HardwareEvent::Elapsed) => match state.restore {
                RestorePolicy::Restore => {
                    self.state = DriverState {
                        pending: Some(InFlight { op, stage: Stage::Releasing }),
                        ..state
                    };
                    Some(PulseStep::Perform(HardwareAction::Drive(op.line, op.active.opposite())))
                },
                RestorePolicy::LeaveAsIs => {
                    self.state = idle;
                    Some(PulseStep::Done(Ok(())))
                },
            },
            (Stage::Releasing, HardwareEvent::Driven) => {
                self.state = DriverState {
                    line: OutputLine { level: Level::Inactive, ..state.line },
                    pending: None,
                    ..state
                };
                Some(PulseStep::Done(Ok(())))
            },
            (_, HardwareEvent::Failed(_, report)) => {
                self.state = idle;
                Some(PulseStep::Done(Err(HardwareError::PinUnavailable(report))))
            },
            _ => None,
        }
    }
}

/// Takes a request to open the garage and says what comes first for the
/// pulse on the relay.
pub fn switch_garage(driver: &mut Driver) -> (first: PulseStep)
    ensures
        (final(driver)@, first@) == old(driver)@.begin(PulseOperation::spec_garage()),
        final(driver)@.wf(),
{
    driver.begin(PulseOperation::garage())
}

/// A request leaves the driver well-formed.
pub proof fn lemma_begin_preserves_wf(driver: DriverState, op: PulseOperation)
    requires
        driver.wf(),
    ensures
        driver.begin(op).0.wf(),
{
}

/// An event leaves the driver well-formed.
pub proof fn lemma_step_preserves_wf(driver: DriverState, event: HardwareEventView)
    requires
        driver.wf(),
    ensures
        driver.step(event).0.wf(),
{
}

/// At most one pulse is in flight: while one is, every other request is
/// turned away as busy, and the pulse in flight is not disturbed.
pub proof fn lemma_pulse_in_flight_is_exclusive(driver: DriverState, op: PulseOperation)
    requires
        driver.pending is Some,
    ensures
        driver.begin(op) == (
            driver,
            PulseStepView::Done(Err(HardwareErrorView::PinBusy(in_flight_cause()))),
        ),
{
}

/// A pulse that has begun runs to its end: an event either changes nothing
/// and has no next step, or it leads to a next step; and the pulse leaves
/// the driver only with the step that ends it.
pub proof fn lemma_pulse_ends_only_when_done(driver: DriverState, event: HardwareEventView)
    requires
        driver.pending is Some,
    ensures
        ({
            let (after, next) = driver.step(event);
            &&& next is None ==> after == driver
            &&& after.pending is None <==> next matches Some(PulseStepView::Done(_))
        }),
{
}

/// Every failure is the end of its pulse: at whatever stage the hardware
/// reports one, the pulse ends with an error, the driver is idle and takes
/// the next request, and the line is as it was. The error keeps what was
/// reported, word for word: unavailable if the interface did not open,
/// busy if the pin is in use, and the pin unavailable for every other
/// failure.
pub proof fn lemma_failure_ends_the_pulse(
    driver: DriverState,
    fault: GpioFault,
    report: Seq<Seq<char>>,
)
    requires
        driver.pending is Some,
    ensures
        ({
            let (after, next) = driver.step(HardwareEventView::Failed(fault, report));
            let stage = driver.pending->0.stage;
            &&& after == driver.idle()
            &&& next matches Some(PulseStepView::Done(Err(error)))
            &&& error.causes() == report
            &&& error is Unavailable <==> stage is Opening
            &&& error is PinBusy <==> stage is Claiming && fault is PinUsed
        }),
{
}

/// The hold is asked for only once the active signal is written, and for
/// exactly the length that the request named.
pub proof fn lemma_hold_follows_activation(driver: DriverState, event: HardwareEventView)
    requires
        driver.wf(),
        driver.step(event).1 matches Some(PulseStepView::Perform(HardwareAction::Hold(_))),
    ensures
        driver.pending matches Some(flight) && flight.stage is Asserting && event is Driven
            && driver.step(event).1 == Some(
            PulseStepView::Perform(HardwareAction::Hold(flight.op.hold_ms)),
        ) && driver.step(event).0.line.level is Active,
{
}


/// The line is claimed at most once: a claim is asked for only while the
/// driver does not hold the line, and a line that is held is never let go,
/// neither by a request nor by an event.
pub proof fn lemma_line_is_claimed_once(
    driver: DriverState,
    op: PulseOperation,
    event: HardwareEventView,
)
    requires
        driver.wf(),
    ensures
        driver.step(event).1 matches Some(PulseStepView::Perform(HardwareAction::Claim(pin)))
            ==> driver.line.acquisition is Unacquired && pin == driver.line.pin,
        driver.line.acquisition is Output ==> driver.begin(op).0.line.acquisition is Output
            && driver.step(event).0.line.acquisition is Output,
        driver.begin(op).0.line.pin == driver.line.pin,
        driver.step(event).0.line.pin == driver.line.pin,
{
}

/// A signal is written only to the driver's own line, and only while the
/// driver holds it.
pub proof fn lemma_writes_go_to_held_line(
    driver: DriverState,
    op: PulseOperation,
    event: HardwareEventView,
)
    requires
        driver.wf(),
    ensures
        driver.begin(op).1 matches PulseStepView::Perform(HardwareAction::Drive(pin, _)) ==> pin
            == driver.line.pin && driver.line.acquisition is Output,
        driver.step(event).1 matches Some(PulseStepView::Perform(HardwareAction::Drive(pin, _)))
            ==> pin == driver.line.pin && driver.step(event).0.line.acquisition is Output,
{
}


} // verus!
