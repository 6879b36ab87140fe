//! What holds of every run of the driver, whoever talks to it.
//!
//! A run is any sequence of requests and hardware events, in any order:
//! requests may come while a pulse is in flight, and events may come that
//! answer nothing. However a run goes, one request makes at most one pulse.

use vstd::prelude::*;
use crate::driver::{
    DriverState, HardwareAction, HardwareEventView, PulseOperation, PulseStepView, Stage,
};

verus! {

/// What reaches a driver: a request for a pulse, or what came of an action.
pub enum Input {
    Request(PulseOperation),
    Event(HardwareEventView),
}

/// The state after `input`, and the step that answers it, if there is one.
pub open spec fn feed(driver: DriverState, input: Input) -> (DriverState, Option<PulseStepView>) {
    match input {
        Input::Request(op) => (driver.begin(op).0, Some(driver.begin(op).1)),
        Input::Event(event) => driver.step(event),
    }
}

/// The state after all of `inputs`, in order.
pub open spec fn after(driver: DriverState, inputs: Seq<Input>) -> DriverState
    decreases inputs.len(),
{
    if inputs.len() == 0 {
        driver
    } else {
        feed(after(driver, inputs.drop_last()), inputs.last()).0
    }
}

/// Whether `input` is a request that the driver takes up: one that is
/// answered with an action to perform.
pub open spec fn takes_up(driver: DriverState, input: Input) -> bool {
    input is Request && feed(driver, input).1 matches Some(PulseStepView::Perform(_))
}

/// Whether `input` makes the driver ask for the active signal of the pulse
/// in flight to be written.
pub open spec fn asks_activation(driver: DriverState, input: Input) -> bool {
    &&& feed(driver, input).1 matches Some(
        PulseStepView::Perform(HardwareAction::Drive(_, signal)),
    )
    &&& feed(driver, input).0.pending matches Some(flight)
    &&& signal == flight.op.active
}

/// Whether `input` makes the driver ask for a hold.
pub open spec fn asks_hold(driver: DriverState, input: Input) -> bool {
    feed(driver, input).1 matches Some(PulseStepView::Perform(HardwareAction::Hold(_)))
}

/// How many requests the driver takes up in a run.
pub open spec fn requests_taken(driver: DriverState, inputs: Seq<Input>) -> nat
    decreases inputs.len(),
{
    if inputs.len() == 0 {
        0
    } else {
        let earlier = inputs.drop_last();
        requests_taken(driver, earlier) + if takes_up(after(driver, earlier), inputs.last()) {
            1nat
        } else {
            0nat
        }
    }
}

/// How many writes of an active signal the driver asks for in a run.
pub open spec fn activations_asked(driver: DriverState, inputs: Seq<Input>) -> nat
    decreases inputs.len(),
{
    if inputs.len() == 0 {
        0
    } else {
        let earlier = inputs.drop_last();
        activations_asked(driver, earlier) + if asks_activation(
            after(driver, earlier),
            inputs.last(),
        ) {
            1nat
        } else {
            0nat
        }
    }
}

/// How many holds the driver asks for in a run.
pub open spec fn holds_asked(driver: DriverState, inputs: Seq<Input>) -> nat
    decreases inputs.len(),
{
    if inputs.len() == 0 {
        0
    } else {
        let earlier = inputs.drop_last();
        holds_asked(driver, earlier) + if asks_hold(after(driver, earlier), inputs.last()) {
            1nat
        } else {
            0nat
        }
    }
}

/// How many activations the pulse in flight may still ask for.
spec fn activations_owed(driver: DriverState) -> nat {
    match driver.pending {
        Some(flight) => match flight.stage {
            Stage::Opening | Stage::Claiming => 1,
            _ => 0,
        },
        None => 0,
    }
}

/// How many holds the pulse in flight may still ask for.
spec fn holds_owed(driver: DriverState) -> nat {
    match driver.pending {
        Some(flight) => match flight.stage {
            Stage::Opening | Stage::Claiming | Stage::Asserting => 1,
            _ => 0,
        },
        None => 0,
    }
}

/// Whether the pulse in flight waits for its active signal to be written.
spec fn asserting(driver: DriverState) -> nat {
    match driver.pending {
        Some(flight) => match flight.stage {
            Stage::Asserting => 1,
            _ => 0,
        },
        None => 0,
    }
}

/// What one input does to the three counts.
proof fn lemma_one_input(driver: DriverState, input: Input)
    ensures
        ({
            let next = feed(driver, input).0;
            let taken = if takes_up(driver, input) {
                1nat
            } else {
                0nat
            };
            let activation = if asks_activation(driver, input) {
                1nat
            } else {
                0nat
            };
            let hold = if asks_hold(driver, input) {
                1nat
            } else {
                0nat
            };
            &&& activation + activations_owed(next) <= taken + activations_owed(driver)
            &&& hold + holds_owed(next) <= taken + holds_owed(driver)
            &&& hold + asserting(next) <= activation + asserting(driver)
        }),
{
}

/// What a whole run does to the three counts.
proof fn lemma_counts(driver: DriverState, inputs: Seq<Input>)
    ensures
        activations_asked(driver, inputs) + activations_owed(after(driver, inputs))
            <= requests_taken(driver, inputs) + activations_owed(driver),
        holds_asked(driver, inputs) + holds_owed(after(driver, inputs)) <= requests_taken(
            driver,
            inputs,
        ) + holds_owed(driver),
        holds_asked(driver, inputs) + asserting(after(driver, inputs)) <= activations_asked(
            driver,
            inputs,
        ) + asserting(driver),
    decreases inputs.len(),
{
    if inputs.len() > 0 {
        lemma_counts(driver, inputs.drop_last());
        lemma_one_input(after(driver, inputs.drop_last()), inputs.last());
    }
}

/// One request, at most one pulse. Whatever reaches an idle driver, and in
/// whatever order, it asks for no more writes of an active signal than it
/// takes up requests, and for no more holds than it has asked for such
/// writes.
pub proof fn lemma_one_pulse_per_request(driver: DriverState, inputs: Seq<Input>)
    requires
        driver.pending is None,
    ensures
        activations_asked(driver, inputs) <= requests_taken(driver, inputs),
        holds_asked(driver, inputs) <= activations_asked(driver, inputs),
{
    lemma_counts(driver, inputs);
}

/// A driver that is left alone asks for nothing: without a request there is
/// no write and no hold, whatever events come.
pub proof fn lemma_no_request_no_pulse(driver: DriverState, inputs: Seq<Input>)
    requires
        driver.pending is None,
        forall|i: int| 0 <= i < inputs.len() ==> inputs[i] is Event,
    ensures
        after(driver, inputs) == driver,
        activations_asked(driver, inputs) == 0,
        holds_asked(driver, inputs) == 0,
    decreases inputs.len(),
{
    if inputs.len() > 0 {
        lemma_no_request_no_pulse(driver, inputs.drop_last());
    }
}

} // verus!
