use garage::driver::{
    Driver, DriverKind, GpioFault, HardwareAction, HardwareEvent, PulseOperation, RestorePolicy,
};
use garage::error::{GrgError, HardwareError, Report, StorageStage};
use garage::handler::{respond, toggle, toggle_next, ToggleStep};
use garage::line::Signal;
use garage::response::{Content, Response, STATUS_INTERNAL_SERVER_ERROR, STATUS_OK};
use garage::simulated::{Fault, SimulatedDriver, SimulatedLine};

fn empty() -> Response {
    Response { status: 200, content: Content::Text, body: String::new() }
}

fn failure(diagnostic: &str) -> Response {
    Response { status: 500, content: Content::Text, body: String::from(diagnostic) }
}

fn report(messages: &[&str]) -> Report {
    Report { messages: messages.iter().map(|message| String::from(*message)).collect() }
}

/// What anyhow shows of an error with these messages, outermost first,
/// without a backtrace.
fn shown_by_anyhow(messages: &[&str]) -> String {
    let (innermost, outer) = messages.split_last().expect("there is a message");
    let mut error = anyhow::Error::msg(String::from(*innermost));
    for message in outer.iter().rev() {
        error = error.context(String::from(*message));
    }
    let shown = format!("{:?}", error);
    match shown.find("\n\nStack backtrace:") {
        Some(at) => String::from(&shown[..at]),
        None => shown,
    }
}

fn serve(driver: &mut Driver, line: &mut SimulatedLine, key: &str) -> Response {
    let mut step = toggle(driver, key);
    loop {
        match step {
            ToggleStep::Respond(response) => return response,
            ToggleStep::Perform(action) => {
                let event = line.perform(action);
                step = toggle_next(driver, event).expect("the event answers the action");
            }
        }
    }
}

#[test]
fn status_codes() {
    assert_eq!(STATUS_OK, 200);
    assert_eq!(STATUS_INTERNAL_SERVER_ERROR, 500);
    assert_eq!(
        Response::empty(),
        Response { status: 200, content: Content::Text, body: String::new() }
    );
    assert_eq!(
        Response::page(String::from("x")),
        Response { status: 200, content: Content::Html, body: String::from("x") }
    );
    assert_eq!(
        Response::failure(String::from("y")),
        Response { status: 500, content: Content::Text, body: String::from("y") }
    );
}

#[test]
fn toggle_against_noop_driver_is_200_with_empty_body() {
    let mut driver = Driver::new(DriverKind::NoOp, 2, RestorePolicy::Restore);
    assert_eq!(
        toggle(&mut driver, "anykey"),
        ToggleStep::Respond(empty())
    );
    let mut line = SimulatedLine::new(Fault::Nothing);
    let response = serve(&mut driver, &mut line, "anykey");
    assert_eq!(response.status, 200);
    assert_eq!(response.body, "");
    assert!(line.transitions().is_empty());
}

#[test]
fn toggle_against_failing_acquisition_is_500_with_diagnostic() {
    let mut driver = Driver::new(DriverKind::Hardware, 2, RestorePolicy::Restore);
    let mut line = SimulatedLine::new(Fault::Claim(GpioFault::PinUsed));
    let response = serve(&mut driver, &mut line, "anykey");
    assert_eq!(response.status, 500);
    assert!(!response.body.is_empty());
    assert_eq!(
        response.body,
        "couldn't get access to pin\n\nCaused by:\n    Pin is already in use"
    );
    assert!(line.transitions().is_empty());
}

#[test]
fn toggle_against_host_without_gpio_is_500() {
    let mut driver = Driver::new(DriverKind::Hardware, 2, RestorePolicy::Restore);
    let mut line = SimulatedLine::new(Fault::Open(GpioFault::UnknownModel));
    let response = serve(&mut driver, &mut line, "anykey");
    assert_eq!(
        response,
        failure("couldn't get RPi GPIO\n\nCaused by:\n    Unknown Raspberry Pi model")
    );
}

#[test]
fn toggle_against_working_hardware_pulses_and_is_200() {
    let mut driver = Driver::new(DriverKind::Hardware, 2, RestorePolicy::Restore);
    let mut line = SimulatedLine::new(Fault::Nothing);
    let response = serve(&mut driver, &mut line, "anykey");
    assert_eq!(response, empty());
    assert_eq!(line.clock_ms(), 200);
    assert_eq!(line.transitions().len(), 2);
}

#[test]
fn toggle_does_not_look_at_the_key() {
    for key in ["", "anykey", "936da01f-9abd-4d9d-80c7-02af85c822a8", "no such key"] {
        let mut driver = Driver::new(DriverKind::Hardware, 2, RestorePolicy::Restore);
        let mut line = SimulatedLine::new(Fault::Nothing);
        assert_eq!(toggle(&mut driver, key), ToggleStep::Perform(HardwareAction::Open));
        assert_eq!(
            toggle_next(&mut driver, HardwareEvent::Opened),
            Some(ToggleStep::Perform(HardwareAction::Claim(2)))
        );
        assert_eq!(toggle_next(&mut driver, HardwareEvent::Opened), None);
        let event = line.perform(HardwareAction::Claim(2));
        assert_eq!(
            toggle_next(&mut driver, event),
            Some(ToggleStep::Perform(HardwareAction::Drive(2, Signal::Low)))
        );
    }
}

#[test]
fn toggle_during_a_pulse_is_500_busy() {
    let mut driver = Driver::new(DriverKind::Hardware, 2, RestorePolicy::Restore);
    toggle(&mut driver, "first");
    assert_eq!(
        toggle(&mut driver, "second"),
        ToggleStep::Respond(failure(
            "couldn't get access to pin\n\nCaused by:\n    a pulse is in flight on the pin"
        ))
    );
}

#[test]
fn respond_maps_every_result() {
    assert_eq!(respond(Ok(())), empty());
    assert_eq!(
        respond(Err(HardwareError::Unavailable(report(&["no gpio"])))),
        failure("couldn't get RPi GPIO\n\nCaused by:\n    no gpio")
    );
    assert_eq!(
        respond(Err(HardwareError::PinBusy(report(&["Pin 2 is already in use"])))),
        failure("couldn't get access to pin\n\nCaused by:\n    Pin 2 is already in use")
    );
    assert_eq!(
        respond(Err(HardwareError::PinUnavailable(report(&["Pin 2 is not available"])))),
        failure("couldn't get access to pin\n\nCaused by:\n    Pin 2 is not available")
    );
}

#[test]
fn simulated_pulse_result_maps_to_the_same_answer() {
    let mut simulated = SimulatedDriver::new(
        DriverKind::Hardware,
        2,
        RestorePolicy::Restore,
        Fault::Claim(GpioFault::PinNotAvailable),
    );
    let response = respond(simulated.pulse(PulseOperation::garage()));
    assert_eq!(response.status, 500);
    assert_eq!(response.body, "couldn't get access to pin\n\nCaused by:\n    Pin is not available");
}

#[test]
fn refused_permission_does_not_read_as_missing_hardware() {
    let mut driver = Driver::new(DriverKind::Hardware, 2, RestorePolicy::Restore);
    toggle(&mut driver, "anykey");
    let answer = toggle_next(
        &mut driver,
        HardwareEvent::Failed(
            GpioFault::PermissionDenied,
            report(&["Permission denied: /dev/gpiomem"]),
        ),
    );
    assert_eq!(
        answer,
        Some(ToggleStep::Respond(failure(
            "couldn't get RPi GPIO\n\nCaused by:\n    Permission denied: /dev/gpiomem"
        )))
    );
}

#[test]
fn error_from_hardware_error() {
    assert_eq!(
        GrgError::from(HardwareError::PinBusy(report(&["in use"]))),
        GrgError::Hardware(HardwareError::PinBusy(report(&["in use"])))
    );
    let wrapped: GrgError = HardwareError::Unavailable(report(&["no gpio"])).into();
    assert_eq!(wrapped, GrgError::Hardware(HardwareError::Unavailable(report(&["no gpio"]))));
    assert_eq!(
        wrapped.into_response(),
        failure("couldn't get RPi GPIO\n\nCaused by:\n    no gpio")
    );
}

#[test]
fn diagnostic_of_storage_errors() {
    let connection =
        GrgError::Storage(StorageStage::Connection, report(&["unable to open database file"]));
    assert_eq!(
        connection.diagnostic(),
        "couldn't get connection\n\nCaused by:\n    unable to open database file"
    );
    let query = GrgError::Storage(StorageStage::Query, report(&["no such table: users"]));
    assert_eq!(query.diagnostic(), "couldn't run query\n\nCaused by:\n    no such table: users");
    assert_eq!(
        query.into_response(),
        failure("couldn't run query\n\nCaused by:\n    no such table: users")
    );
}

#[test]
fn diagnostic_without_a_cause_is_the_attempt() {
    let bare = GrgError::Storage(StorageStage::Query, report(&[]));
    assert_eq!(bare.diagnostic(), "couldn't run query");
    assert_eq!(bare.diagnostic(), shown_by_anyhow(&["couldn't run query"]));
}

#[test]
fn diagnostic_of_an_empty_cause() {
    let empty_cause = GrgError::Storage(StorageStage::Query, report(&[""]));
    assert_eq!(empty_cause.diagnostic(), "couldn't run query\n\nCaused by:\n    ");
    assert_eq!(empty_cause.diagnostic(), shown_by_anyhow(&["couldn't run query", ""]));
}

#[test]
fn diagnostic_numbers_several_causes() {
    let error = GrgError::Storage(
        StorageStage::Query,
        report(&["error returned from database: no such table: users", "no such table: users"]),
    );
    assert_eq!(
        error.diagnostic(),
        "couldn't run query\n\nCaused by:\n    \
         0: error returned from database: no such table: users\n    \
         1: no such table: users"
    );
}

#[test]
fn diagnostic_indents_the_lines_of_a_cause() {
    let one = GrgError::Hardware(HardwareError::Unavailable(report(&["first\nsecond\n\nlast\n"])));
    assert_eq!(
        one.diagnostic(),
        "couldn't get RPi GPIO\n\nCaused by:\n    first\n    second\n    \n    last\n    "
    );
    let two = GrgError::Hardware(HardwareError::PinBusy(report(&["a\nb", "\nc"])));
    assert_eq!(
        two.diagnostic(),
        "couldn't get access to pin\n\nCaused by:\n    0: a\n       b\n    1: \n       c"
    );
}

#[test]
fn diagnostic_is_what_anyhow_shows() {
    let chains: [&[&str]; 7] = [
        &["no gpio"],
        &["Permission denied: /dev/gpiomem"],
        &["I/O error: broken pipe", "broken pipe"],
        &["a", "b", "c", "d"],
        &["first\nsecond", "third\n", "\n"],
        &["Ærøskøbing — ünïcödé", ""],
        &["0", "1", "2", "3", "4", "5", "6", "7", "8", "9", "10", "11"],
    ];
    for chain in chains {
        let mut whole = vec!["couldn't get RPi GPIO"];
        whole.extend_from_slice(chain);
        assert_eq!(
            GrgError::Hardware(HardwareError::Unavailable(report(chain))).diagnostic(),
            shown_by_anyhow(&whole)
        );
        whole[0] = "couldn't get access to pin";
        assert_eq!(
            GrgError::Hardware(HardwareError::PinBusy(report(chain))).diagnostic(),
            shown_by_anyhow(&whole)
        );
        assert_eq!(
            GrgError::Hardware(HardwareError::PinUnavailable(report(chain))).diagnostic(),
            shown_by_anyhow(&whole)
        );
        whole[0] = "couldn't get connection";
        assert_eq!(
            GrgError::Storage(StorageStage::Connection, report(chain)).diagnostic(),
            shown_by_anyhow(&whole)
        );
        whole[0] = "couldn't run query";
        assert_eq!(
            GrgError::Storage(StorageStage::Query, report(chain)).diagnostic(),
            shown_by_anyhow(&whole)
        );
    }
}

#[test]
fn diagnostic_of_a_long_chain_is_what_anyhow_shows() {
    let messages: Vec<String> = (0..150).map(|n| format!("cause {}", n % 7)).collect();
    let chain: Vec<&str> = messages.iter().map(|message| message.as_str()).collect();
    let mut whole = vec!["couldn't run query"];
    whole.extend_from_slice(&chain);
    let shown = GrgError::Storage(StorageStage::Query, report(&chain)).diagnostic();
    assert!(shown.contains("\n    9: cause 2\n   10: cause 3\n"));
    assert!(shown.ends_with("\n  148: cause 1\n  149: cause 2"));
    assert_eq!(shown, shown_by_anyhow(&whole));
}

#[test]
fn number_wider_than_its_field_is_not_cut() {
    let messages: Vec<String> = (0..100_001).map(|n| format!("cause {}", n % 7)).collect();
    let chain: Vec<&str> = messages.iter().map(|message| message.as_str()).collect();
    let shown = GrgError::Storage(StorageStage::Query, report(&chain)).diagnostic();
    assert!(shown.starts_with("couldn't run query\n\nCaused by:\n    0: cause 0\n"));
    assert!(shown.contains("\n 9999: cause 3\n10000: cause 4\n"));
    assert!(shown.ends_with("\n99999: cause 4\n100000: cause 5"));
}
