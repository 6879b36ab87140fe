//! The actuation handler: from a request to open the garage to the answer.
//!
//! The key that comes with a request is taken and not looked at: whoever
//! reaches the handler may open the garage.

use vstd::prelude::*;
use crate::driver::{
    result_view, switch_garage, Driver, DriverState, HardwareAction, HardwareEvent,
    PulseOperation, PulseStep, PulseStepView,
};
use crate::error::{
    chain_text, lemma_diagnostic_is_not_empty, GrgError, HardwareError, HardwareErrorView,
};
use crate::response::{Response, ResponseView};
use crate::simulated::SimulatedView;

verus! {

/// What comes next for a request to open the garage.
#[derive(Debug, PartialEq, Eq)]
pub enum ToggleStep {
    /// Perform the action and report what came of it.
    Perform(HardwareAction),
    /// Answer the request; it is over.
    Respond(Response),
}

/// The mathematical content of a [`ToggleStep`].
pub enum ToggleStepView {
    Perform(HardwareAction),
    Respond(ResponseView),
}

impl View for ToggleStep {
    type V = ToggleStepView;

    open spec fn view(&self) -> ToggleStepView {
        match self {
            ToggleStep::Perform(action) => ToggleStepView::Perform(*action),
            ToggleStep::Respond(response) => ToggleStepView::Respond(response@),
        }
    }
}

/// The content of a step that may be absent.
pub open spec fn step_view(step: Option<ToggleStep>) -> Option<ToggleStepView> {
    match step {
        Some(step) => Some(step@),
        None => None,
    }
}

/// The answer to a pulse that ended with `result`: 200 and an empty body if
/// it succeeded, 500 and the diagnostic of the error if it failed.
pub open spec fn toggle_response(result: Result<(), HardwareErrorView>) -> ResponseView {
    match result {
        Ok(()) => Response::spec_empty(),
        Err(error) => Response::spec_failure(error.diagnostic_text()),
    }
}

/// What the handler makes of a step of the pulse: an action is passed on,
/// the end of the pulse is answered.
pub open spec fn handler_step(step: PulseStepView) -> ToggleStepView {
    match step {
        PulseStepView::Perform(action) => ToggleStepView::Perform(action),
        PulseStepView::Done(result) => ToggleStepView::Respond(toggle_response(result)),
    }
}

/// What the handler makes of a step that may be absent.
pub open spec fn handler_next(step: Option<PulseStepView>) -> Option<ToggleStepView> {
    match step {
        Some(step) => Some(handler_step(step)),
        None => None,
    }
}

/// The answer to a pulse that ended with `result`.
pub fn respond(result: Result<(), HardwareError>) -> (response: Response)
    ensures
        response@ == toggle_response(result_view(result)),
        response@.status == 200 || response@.status == 500,
        result is Err ==> response@.body.len() > 0,
{
    match result {
        Ok(()) => Response::empty(),
        Err(error) => GrgError::from(error).into_response(),
    }
}

/// What the handler makes of a step of the pulse.
fn pass_on(step: PulseStep) -> (passed: ToggleStep)
    ensures
        passed@ == handler_step(step@),
{
    match step {
        PulseStep::Perform(action) => ToggleStep::Perform(action),
        PulseStep::Done(result) => ToggleStep::Respond(respond(result)),
    }
}

/// Takes a request to open the garage and says what comes first. The key
/// has no part in it.
pub fn toggle(driver: &mut Driver, _key: &str) -> (first: ToggleStep)
    ensures
        final(driver)@ == old(driver)@.begin(PulseOperation::spec_garage()).0,
        first@ == handler_step(old(driver)@.begin(PulseOperation::spec_garage()).1),
        final(driver)@.wf(),
{
    pass_on(switch_garage(driver))
}

/// Takes what came of the last action and says what comes next for the
/// request: `None` if the event does not answer the action in flight.
pub fn toggle_next(driver: &mut Driver, event: HardwareEvent) -> (next: Option<ToggleStep>)
    ensures
        final(driver)@ == old(driver)@.step(event@).0,
        step_view(next) == handler_next(old(driver)@.step(event@).1),
        final(driver)@.wf(),
{
    match driver.step(event) {
        Some(step) => Some(pass_on(step)),
        None => None,
    }
}

/// A request to a no-op driver is answered at once, with 200 and an empty
/// body, and the driver is left as it was.
pub proof fn lemma_noop_toggle_is_ok(driver: DriverState)
    requires
        driver.wf(),
        driver.kind is NoOp,
    ensures
        driver.begin(PulseOperation::spec_garage()).0 == driver,
        handler_step(driver.begin(PulseOperation::spec_garage()).1) == ToggleStepView::Respond(
            Response::spec_empty(),
        ),
        Response::spec_empty().status == 200,
        Response::spec_empty().body.len() == 0,
{
}

/// Every failed pulse is answered with 500 and a body that is not empty:
/// the diagnostic of the error, which is the attempt and under it the whole
/// chain of causes.
pub proof fn lemma_failure_is_reported(error: HardwareErrorView)
    ensures
        toggle_response(Err(error)).status == 500,
        toggle_response(Err(error)).body == chain_text(error.context_text(), error.causes()),
        toggle_response(Err(error)).body.len() > 0,
{
    lemma_diagnostic_is_not_empty(error.context_text(), error.causes());
}

/// A driver whose hardware refuses the line answers the request with 500
/// and a body that is not empty, and nothing reaches the hardware.
pub proof fn lemma_refused_line_answers_500(simulated: SimulatedView, op: PulseOperation)
    requires
        simulated.wf(),
        simulated.driver.kind is Hardware,
        simulated.acquisition() is Err,
    ensures
        simulated.pulse(op).0 == simulated,
        simulated.pulse(op).1 is Err,
        toggle_response(simulated.pulse(op).1).status == 500,
        toggle_response(simulated.pulse(op).1).body.len() > 0,
{
    lemma_failure_is_reported(simulated.pulse(op).1->Err_0);
}

} // verus!
