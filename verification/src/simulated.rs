//! A driver on simulated hardware.
//!
//! The simulated line answers every hardware action at once, keeps a clock
//! that only a hold moves, and records each signal written to the pin. It
//! can be set up to refuse the GPIO interface or the pin.

use vstd::prelude::*;
use crate::driver::{
    other_line_cause, result_view, spec_claim_error, Driver, DriverKind, DriverState, GpioFault,
    HardwareAction, HardwareEvent, HardwareEventView, PulseOperation, PulseStep, PulseStepView,
    RestorePolicy, Stage,
};
use crate::error::{HardwareError, HardwareErrorView, Report};
use crate::line::{Acquisition, Level, OutputLine, Signal};

verus! {

/// What the simulated hardware is set up to refuse.
#[derive(Clone, Copy, Debug, PartialEq, Eq, Structural)]
pub enum Fault {
    /// Every action succeeds.
    Nothing,
    /// The GPIO interface does not open.
    Open(GpioFault),
    /// The pin is not granted.
    Claim(GpioFault),
}

/// A signal written to a pin, and when.
#[derive(Clone, Copy, Debug, PartialEq, Eq, Structural)]
pub struct Transition {
    pub at_ms: u64,
    pub pin: u8,
    pub signal: Signal,
}

/// Simulated hardware with one pin to give away.
#[derive(Debug)]
pub struct SimulatedLine {
    fault: Fault,
    clock_ms: u64,
    claimed: Option<u8>,
    log: Vec<Transition>,
}

/// The mathematical content of a [`SimulatedLine`].
pub struct LineView {
    pub fault: Fault,
    pub clock_ms: u64,
    pub claimed: Option<u8>,
    pub log: Seq<Transition>,
}

/// What the simulated hardware reports of a fault.
pub open spec fn fault_text(fault: GpioFault) -> Seq<char> {
    match fault {
        GpioFault::UnknownModel => "Unknown Raspberry Pi model"@,
        GpioFault::PinUsed => "Pin is already in use"@,
        GpioFault::PinNotAvailable => "Pin is not available"@,
        GpioFault::PermissionDenied => "Permission denied"@,
        GpioFault::Io => "I/O error"@,
        GpioFault::ThreadPanic => "Thread panicked"@,
    }
}

/// The event of an action that failed with `fault`.
pub open spec fn failure(fault: GpioFault) -> HardwareEventView {
    HardwareEventView::Failed(fault, seq![fault_text(fault)])
}

/// The event of an action that failed with `fault`.
fn fail(fault: GpioFault) -> (event: HardwareEvent)
    ensures
        event@ == failure(fault),
{
    let report = match fault {
        GpioFault::UnknownModel => Report::of("Unknown Raspberry Pi model"),
        GpioFault::PinUsed => Report::of("Pin is already in use"),
        GpioFault::PinNotAvailable => Report::of("Pin is not available"),
        GpioFault::PermissionDenied => Report::of("Permission denied"),
        GpioFault::Io => Report::of("I/O error"),
        GpioFault::ThreadPanic => Report::of("Thread panicked"),
    };
    HardwareEvent::Failed(fault, report)
}

impl LineView {
    /// Simulated hardware that has not been used.
    pub open spec fn initial(fault: Fault) -> LineView {
        LineView { fault, clock_ms: 0, claimed: None, log: Seq::empty() }
    }

    /// The hardware after `action`, and what came of it.
    ///
    /// The interface opens unless set up otherwise. A pin is granted once. A
    /// signal is written, and recorded, only to the pin that was granted. A
    /// hold moves the clock by its length.
    pub open spec fn perform(self, action: HardwareAction) -> (LineView, HardwareEventView) {
        match action {
            HardwareAction::Open => match self.fault {
                Fault::Open(fault) => (self, failure(fault)),
                _ => (self, HardwareEventView::Opened),
            },
            HardwareAction::Claim(pin) => if self.claimed is Some {
                (self, failure(GpioFault::PinUsed))
            } else {
                match self.fault {
                    Fault::Claim(fault) => (self, failure(fault)),
                    _ => (LineView { claimed: Some(pin), ..self }, HardwareEventView::Claimed),
                }
            },
            HardwareAction::Drive(pin, signal) => if self.claimed == Some(pin) {
                (
                    LineView {
                        log: self.log.push(Transition { at_ms: self.clock_ms, pin, signal }),
                        ..self
                    },
                    HardwareEventView::Driven,
                )
            } else {
                (self, failure(GpioFault::PinNotAvailable))
            },
            HardwareAction::Hold(ms) => (
                LineView { clock_ms: (self.clock_ms + ms) as u64, ..self },
                HardwareEventView::Elapsed,
            ),
        }
    }
}

impl View for SimulatedLine {
    type V = LineView;

    closed spec fn view(&self) -> LineView {
        LineView {
            fault: self.fault,
            clock_ms: self.clock_ms,
            claimed: self.claimed,
            log: self.log@,
        }
    }
}

impl SimulatedLine {
    /// Simulated hardware that refuses what `fault` says.
    pub fn new(fault: Fault) -> (line: SimulatedLine)
        ensures
            line@ == LineView::initial(fault),
    {
        SimulatedLine { fault, clock_ms: 0, claimed: None, log: Vec::new() }
    }

    /// The simulated time, in milliseconds since the hardware was set up.
    pub fn clock_ms(&self) -> (now: u64)
        ensures
            now == self@.clock_ms,
    {
        self.clock_ms
    }

    /// Every signal written so far, oldest first.
    pub fn transitions(&self) -> (log: &Vec<Transition>)
        ensures
            log@ == self@.log,
    {
        &self.log
    }

    /// The pin that was granted, if one was.
    pub fn claimed(&self) -> (pin: Option<u8>)
        ensures
            pin == self@.claimed,
    {
        self.claimed
    }

    /// Performs `action` on the simulated hardware and says what came of it.
    pub fn perform(&mut self, action: HardwareAction) -> (event: HardwareEvent)
        requires
            action matches HardwareAction::Hold(ms) ==> old(self)@.clock_ms + ms <= u64::MAX,
        ensures
            (final(self)@, event@) == old(self)@.perform(action),
    {
        match action {
            HardwareAction::Open => match self.fault {
                Fault::Open(fault) => fail(fault),
                _ => HardwareEvent::Opened,
            },
            HardwareAction::Claim(pin) => {
                if self.claimed.is_some() {
                    fail(GpioFault::PinUsed)
                } else {
                    match self.fault {
                        Fault::Claim(fault) => fail(fault),
                        _ => {
                            self.claimed = Some(pin);
                            HardwareEvent::Claimed
                        },
                    }
                }
            },
            HardwareAction::Drive(pin, signal) => {
                let granted = match self.claimed {
                    Some(held) => held == pin,
                    None => false,
                };
                if granted {
                    self.log.push(Transition { at_ms: self.clock_ms, pin, signal });
                    HardwareEvent::Driven
                } else {
                    fail(GpioFault::PinNotAvailable)
                }
            },
            HardwareAction::Hold(ms) => {
                self.clock_ms = self.clock_ms + ms;
                HardwareEvent::Elapsed
            },
        }
    }
}

/// A driver together with the simulated hardware that it drives.
#[derive(Debug)]
pub struct SimulatedDriver {
    driver: Driver,
    line: SimulatedLine,
}

/// The mathematical content of a [`SimulatedDriver`].
pub struct SimulatedView {
    pub driver: DriverState,
    pub line: LineView,
}

/// The pin that a driver holds, if it holds one.
pub open spec fn held_pin(driver: DriverState) -> Option<u8> {
    if driver.line.acquisition is Output {
        Some(driver.line.pin)
    } else {
        None
    }
}

impl SimulatedView {
    /// A driver and simulated hardware that have not been used.
    pub open spec fn initial(
        kind: DriverKind,
        pin: u8,
        restore: RestorePolicy,
        fault: Fault,
    ) -> SimulatedView {
        SimulatedView {
            driver: DriverState::initial(kind, pin, restore),
            line: LineView::initial(fault),
        }
    }

    /// Between two pulses no pulse is in flight, and the hardware has
    /// granted exactly the pin that the driver holds.
    pub open spec fn wf(self) -> bool {
        &&& self.driver.wf()
        &&& self.driver.pending is None
        &&& self.line.claimed == held_pin(self.driver)
    }

    /// Whether the driver has its line or can get it: the error of the
    /// acquisition if it cannot.
    pub open spec fn acquisition(self) -> Result<(), HardwareErrorView> {
        if self.driver.line.acquisition is Output {
            Ok(())
        } else {
            match self.line.fault {
                Fault::Nothing => Ok(()),
                Fault::Open(fault) => Err(HardwareErrorView::Unavailable(seq![fault_text(fault)])),
                Fault::Claim(fault) => Err(spec_claim_error(fault, seq![fault_text(fault)])),
            }
        }
    }

    /// The result of a pulse.
    ///
    /// A no-op driver succeeds. A pulse on another line than the driver's
    /// own fails as unavailable. Otherwise the pulse succeeds if the line
    /// can be had, and fails with the error of the acquisition if not.
    pub open spec fn pulse_result(self, op: PulseOperation) -> Result<(), HardwareErrorView> {
        if self.driver.kind is NoOp {
            Ok(())
        } else if op.line != self.driver.line.pin {
            Err(HardwareErrorView::PinUnavailable(other_line_cause()))
        } else {
            self.acquisition()
        }
    }

    /// Whether a pulse reaches the hardware: only a successful pulse of a
    /// hardware driver does.
    pub open spec fn actuates(self, op: PulseOperation) -> bool {
        self.driver.kind is Hardware && self.pulse_result(op) is Ok
    }

    /// The write of the active signal, at the start of the hold.
    pub open spec fn activation(self, op: PulseOperation) -> Transition {
        Transition { at_ms: self.line.clock_ms, pin: op.line, signal: op.active }
    }

    /// The write of the inactive signal, at the end of the hold.
    pub open spec fn release(self, op: PulseOperation) -> Transition {
        Transition {
            at_ms: (self.line.clock_ms + op.hold_ms) as u64,
            pin: op.line,
            signal: op.active.spec_opposite(),
        }
    }

    /// Driver and hardware after a pulse, and its result.
    ///
    /// A pulse that does not reach the hardware changes nothing. One that
    /// does leaves the line held, records the active signal at the start of
    /// the hold and, if the driver restores, the inactive signal at its end,
    /// and moves the clock by the length of the hold.
    pub open spec fn pulse(self, op: PulseOperation) -> (
        SimulatedView,
        Result<(), HardwareErrorView>,
    ) {
        if !self.actuates(op) {
            (self, self.pulse_result(op))
        } else {
            let restores = self.driver.restore is Restore;
            let held = self.line.log.push(self.activation(op));
            (
                SimulatedView {
                    driver: DriverState {
                        line: OutputLine {
                            pin: op.line,
                            level: if restores {
                                Level::Inactive
                            } else {
                                Level::Active
                            },
                            acquisition: Acquisition::Output,
                        },
                        ..self.driver
                    },
                    line: LineView {
                        clock_ms: (self.line.clock_ms + op.hold_ms) as u64,
                        claimed: Some(op.line),
                        log: if restores {
                            held.push(self.release(op))
                        } else {
                            held
                        },
                        ..self.line
                    },
                },
                Ok(()),
            )
        }
    }
}

/// How many hardware actions a pulse may still ask for.
spec fn actions_left(driver: DriverState, step: PulseStepView) -> nat {
    match (step, driver.pending) {
        (PulseStepView::Perform(_), Some(flight)) => match flight.stage {
            Stage::Opening => 5,
            Stage::Claiming => 4,
            Stage::Asserting => 3,
            Stage::Holding => 2,
            Stage::Releasing => 1,
        },
        _ => 0,
    }
}

/// Where a pulse that began at `start` stands: what the driver and the
/// hardware have come to when `step` is the step to take.
spec fn on_track(
    start: SimulatedView,
    op: PulseOperation,
    driver: DriverState,
    line: LineView,
    step: PulseStepView,
) -> bool {
    let held = OutputLine { acquisition: Acquisition::Output, ..start.driver.line };
    let active = OutputLine { level: Level::Active, ..held };
    let granted = LineView { claimed: Some(op.line), ..start.line };
    let written = LineView { log: start.line.log.push(start.activation(op)), ..granted };
    match step {
        PulseStepView::Done(result) => (SimulatedView { driver, line }, result) == start.pulse(op),
        PulseStepView::Perform(action) => {
            &&& start.driver.kind is Hardware
            &&& op.line == start.driver.line.pin
            &&& driver.pending matches Some(flight)
            &&& flight.op == op
            &&& match flight.stage {
                Stage::Opening => {
                    &&& action == HardwareAction::Open
                    &&& driver == start.driver.with_flight(op, Stage::Opening)
                    &&& line == start.line
                },
                Stage::Claiming => {
                    &&& action == HardwareAction::Claim(op.line)
                    &&& driver == start.driver.with_flight(op, Stage::Claiming)
                    &&& line == start.line
                    &&& !(start.line.fault is Open)
                },
                Stage::Asserting => {
                    &&& action == HardwareAction::Drive(op.line, op.active)
                    &&& driver == (DriverState { line: held, ..start.driver }).with_flight(
                        op,
                        Stage::Asserting,
                    )
                    &&& line == granted
                    &&& start.acquisition() is Ok
                },
                Stage::Holding => {
                    &&& action == HardwareAction::Hold(op.hold_ms)
                    &&& driver == (DriverState { line: active, ..start.driver }).with_flight(
                        op,
                        Stage::Holding,
                    )
                    &&& line == written
                    &&& start.acquisition() is Ok
                },
                Stage::Releasing => {
                    &&& action == HardwareAction::Drive(op.line, op.active.spec_opposite())
                    &&& driver == (DriverState { line: active, ..start.driver }).with_flight(
                        op,
                        Stage::Releasing,
                    )
                    &&& line == LineView {
                        clock_ms: (start.line.clock_ms + op.hold_ms) as u64,
                        ..written
                    }
                    &&& start.driver.restore is Restore
                    &&& start.acquisition() is Ok
                },
            }
        },
    }
}

impl View for SimulatedDriver {
    type V = SimulatedView;

    closed spec fn view(&self) -> SimulatedView {
        SimulatedView { driver: self.driver@, line: self.line@ }
    }
}

impl SimulatedDriver {
    /// A driver of the given kind for the line on `pin`, on simulated
    /// hardware that refuses what `fault` says.
    pub fn new(kind: DriverKind, pin: u8, restore: RestorePolicy, fault: Fault) -> (simulated:
        SimulatedDriver)
        ensures
            simulated@ == SimulatedView::initial(kind, pin, restore, fault),
            simulated@.wf(),
    {
        SimulatedDriver { driver: Driver::new(kind, pin, restore), line: SimulatedLine::new(fault) }
    }

    /// The driver.
    pub fn driver(&self) -> (driver: &Driver)
        ensures
            driver@ == self@.driver,
    {
        &self.driver
    }

    /// The simulated hardware.
    pub fn line(&self) -> (line: &SimulatedLine)
        ensures
            line@ == self@.line,
    {
        &self.line
    }

    /// Produces one pulse on the simulated hardware and returns when it is
    /// over: performs each action that the driver asks for and hands back
    /// what came of it.
    pub fn pulse(&mut self, op: PulseOperation) -> (result: Result<(), HardwareError>)
        requires
            old(self)@.wf(),
            old(self)@.actuates(op) ==> old(self)@.line.clock_ms + op.hold_ms <= u64::MAX,
        ensures
            (final(self)@, result_view(result)) == old(self)@.pulse(op),
            final(self)@.wf(),
    {
        let ghost start = self@;
        let mut step = self.driver.begin(op);
        loop
            invariant
                start == old(self)@,
                start.wf(),
                start.actuates(op) ==> start.line.clock_ms + op.hold_ms <= u64::MAX,
                self.driver@.wf(),
                on_track(start, op, self.driver@, self.line@, step@),
            decreases actions_left(self.driver@, step@),
        {
            match step {
                PulseStep::Done(result) => {
                    return result;
                },
                PulseStep::Perform(action) => {
                    let event = self.line.perform(action);
                    step = self.driver.step(event).unwrap();
                },
            }
        }
    }
}

/// How often `signal` was written, by the record.
pub open spec fn count_writes(log: Seq<Transition>, signal: Signal) -> nat
    decreases log.len(),
{
    if log.len() == 0 {
        0
    } else {
        let earlier = count_writes(log.drop_last(), signal);
        if log.last().signal == signal {
            earlier + 1
        } else {
            earlier
        }
    }
}

/// One more write adds one to the count of its own signal and nothing to
/// the count of the other.
pub proof fn lemma_count_writes_push(log: Seq<Transition>, write: Transition, signal: Signal)
    ensures
        count_writes(log.push(write), signal) == count_writes(log, signal) + if write.signal
            == signal {
            1nat
        } else {
            0nat
        },
{
    assert(log.push(write).drop_last() =~= log);
}

/// A pulse leaves driver and hardware well-formed.
pub proof fn lemma_pulse_preserves_wf(simulated: SimulatedView, op: PulseOperation)
    requires
        simulated.wf(),
    ensures
        simulated.pulse(op).0.wf(),
{
}

/// A pulse on a no-op driver succeeds, whatever the line and the hold, and
/// it does so at once: the first step is the last, nothing is asked of the
/// hardware, nothing is recorded and no time passes.
pub proof fn lemma_noop_pulse_succeeds_at_once(simulated: SimulatedView, op: PulseOperation)
    requires
        simulated.wf(),
        simulated.driver.kind is NoOp,
    ensures
        simulated.driver.begin(op) == (simulated.driver, PulseStepView::Done(Ok(()))),
        simulated.pulse(op) == (simulated, Ok::<(), HardwareErrorView>(())),
{
}

/// A pulse that fails leaves no trace: nothing is recorded, no time passes,
/// and the driver is as it was.
pub proof fn lemma_failed_pulse_leaves_no_trace(simulated: SimulatedView, op: PulseOperation)
    requires
        simulated.wf(),
        simulated.pulse(op).1 is Err,
    ensures
        simulated.pulse(op).0 == simulated,
{
}

/// A pulse that reaches the hardware succeeds, writes the active signal
/// exactly once, at the start of the hold, and returns when the hold is
/// over: the clock has moved by its length. What was recorded before
/// stays. A driver that restores then writes the inactive signal exactly
/// once, at the end of the hold; one that does not writes nothing more.
pub proof fn lemma_pulse_is_one_activation(simulated: SimulatedView, op: PulseOperation)
    requires
        simulated.wf(),
        simulated.actuates(op),
        simulated.line.clock_ms + op.hold_ms <= u64::MAX,
    ensures
        ({
            let before = simulated.line.log;
            let (after, result) = simulated.pulse(op);
            let restores = simulated.driver.restore is Restore;
            &&& result is Ok
            &&& after.line.clock_ms == simulated.line.clock_ms + op.hold_ms
            &&& after.line.log.len() == before.len() + if restores {
                2nat
            } else {
                1nat
            }
            &&& after.line.log.subrange(0, before.len() as int) == before
            &&& after.line.log[before.len() as int] == Transition {
                at_ms: simulated.line.clock_ms,
                pin: op.line,
                signal: op.active,
            }
            &&& restores ==> after.line.log[before.len() as int + 1] == Transition {
                at_ms: (simulated.line.clock_ms + op.hold_ms) as u64,
                pin: op.line,
                signal: op.active.spec_opposite(),
            }
            &&& count_writes(after.line.log, op.active) == count_writes(before, op.active) + 1
            &&& count_writes(after.line.log, op.active.spec_opposite()) == count_writes(
                before,
                op.active.spec_opposite(),
            ) + if restores {
                1nat
            } else {
                0nat
            }
            &&& after.driver.line.acquisition is Output
            &&& after.driver.line.level is Active <==> !restores
        }),
{
    let before = simulated.line.log;
    let held = before.push(simulated.activation(op));
    assert(held.subrange(0, before.len() as int) =~= before);
    assert(held.push(simulated.release(op)).subrange(0, before.len() as int) =~= before);
    lemma_count_writes_push(before, simulated.activation(op), op.active);
    lemma_count_writes_push(before, simulated.activation(op), op.active.spec_opposite());
    lemma_count_writes_push(held, simulated.release(op), op.active);
    lemma_count_writes_push(held, simulated.release(op), op.active.spec_opposite());
}

/// Two pulses on one driver, one after the other, hold one after the other:
/// both succeed, the second hold begins no earlier than the first has
/// ended, and from the start of the first to the end of the second the
/// clock moves by the two holds together.
pub proof fn lemma_serial_pulses_do_not_overlap(
    simulated: SimulatedView,
    first: PulseOperation,
    second: PulseOperation,
)
    requires
        simulated.wf(),
        simulated.actuates(first),
        second.line == first.line,
        simulated.line.clock_ms + first.hold_ms + second.hold_ms <= u64::MAX,
    ensures
        ({
            let (between, first_result) = simulated.pulse(first);
            let (after, second_result) = between.pulse(second);
            &&& first_result is Ok
            &&& second_result is Ok
            &&& between.activation(second).at_ms >= simulated.activation(first).at_ms
                + first.hold_ms
            &&& after.line.clock_ms == between.activation(second).at_ms + second.hold_ms
            &&& after.line.clock_ms - simulated.line.clock_ms == first.hold_ms + second.hold_ms
        }),
{
}


} // verus!
