use garage::registration::{
    create_user, is_valid_key, user_code_page, Registration, RegistrationStage, RegistrationStep,
    StorageEvent, INSERT_USER, KEY_LENGTH,
};
use garage::error::Report;
use garage::response::{Content, Response};

const KEY: &str = "936da01f-9abd-4d9d-80c7-02af85c822a8";

fn failure(diagnostic: &str) -> Response {
    Response { status: 500, content: Content::Text, body: String::from(diagnostic) }
}

fn report(messages: &[&str]) -> Report {
    Report { messages: messages.iter().map(|message| String::from(*message)).collect() }
}

fn opened(name: &str, key: &str) -> Registration {
    let (registration, first) =
        Registration::open(String::from(name), String::from(key)).expect("the key is valid");
    assert_eq!(first, RegistrationStep::Connect);
    registration
}

#[test]
fn statement_stores_name_then_key() {
    assert_eq!(INSERT_USER, "INSERT INTO users (name, key) VALUES (?1, ?2)");
    assert_eq!(KEY_LENGTH, 36);
}

#[test]
fn create_user_issues_a_random_uuid() {
    let (registration, first) = create_user(String::from("alice"));
    assert_eq!(first, RegistrationStep::Connect);
    assert_eq!(registration.name(), "alice");
    assert_eq!(registration.stage(), RegistrationStage::Connecting);
    let key = registration.key();
    assert!(is_valid_key(key));
    assert_eq!(key.len(), 36);
    let parsed = uuid::Uuid::parse_str(key).expect("the key is a UUID");
    assert_eq!(parsed.get_version_num(), 4);
    assert_eq!(parsed.get_variant(), uuid::Variant::RFC4122);
    assert_eq!(parsed.to_string(), key);
    assert_eq!(key.as_bytes()[14], b'4');
    assert!(b"89ab".contains(&key.as_bytes()[19]));
}

#[test]
fn registration_round_trip() {
    let (mut registration, _) = create_user(String::from("alice"));
    let key = String::from(registration.key());
    assert_eq!(
        registration.step(StorageEvent::Connected),
        Some(RegistrationStep::Insert { name: String::from("alice"), key: key.clone() })
    );
    assert_eq!(registration.stage(), RegistrationStage::Inserting);
    let answer = registration.step(StorageEvent::Stored);
    assert_eq!(
        answer,
        Some(RegistrationStep::Respond(Response {
            status: 200,
            content: Content::Html,
            body: format!("<h1>User code</h1><p>{}</p>", key),
        }))
    );
    assert_eq!(registration.stage(), RegistrationStage::Finished);
    assert_eq!(registration.key(), key);
}

#[test]
fn same_name_twice_gets_two_keys() {
    let (first, _) = create_user(String::from("alice"));
    let (second, _) = create_user(String::from("alice"));
    assert_eq!(first.name(), second.name());
    assert_ne!(first.key(), second.key());
}

#[test]
fn any_name_is_taken() {
    for name in ["", "alice", "   ", "Ærøskøbing <b>&</b>", "a\nb"] {
        let (registration, _) = create_user(String::from(name));
        assert_eq!(registration.name(), name);
    }
}

#[test]
fn page_shows_the_key() {
    assert_eq!(
        user_code_page(KEY),
        "<h1>User code</h1><p>936da01f-9abd-4d9d-80c7-02af85c822a8</p>"
    );
    assert_eq!(user_code_page(""), "<h1>User code</h1><p></p>");
    let page = user_code_page(KEY);
    assert_eq!(&page[21..57], KEY);
}

#[test]
fn open_with_a_given_key() {
    let mut registration = opened("bob", KEY);
    assert_eq!(registration.name(), "bob");
    assert_eq!(registration.key(), KEY);
    assert_eq!(registration.stage(), RegistrationStage::Connecting);
    assert_eq!(
        registration.step(StorageEvent::Connected),
        Some(RegistrationStep::Insert { name: String::from("bob"), key: String::from(KEY) })
    );
    assert_eq!(
        registration.step(StorageEvent::Stored),
        Some(RegistrationStep::Respond(Response {
            status: 200,
            content: Content::Html,
            body: String::from("<h1>User code</h1><p>936da01f-9abd-4d9d-80c7-02af85c822a8</p>"),
        }))
    );
}

#[test]
fn open_turns_away_what_is_no_key() {
    for key in [
        "",
        "anykey",
        "936da01f9abd4d9d80c702af85c822a8",
        "936DA01F-9ABD-4D9D-80C7-02AF85C822A8",
        "936da01f-9abd-4d9d-80c7-02af85c822a",
        "936da01f-9abd-4d9d-80c7-02af85c822a8a",
        "936da01f-9abd-4d9d-80c7002af85c822a8",
        "936da01f-9abd-4d9d-80c7-02af85c822ag",
        "936da01f-9abd-4d9d-80c7-02af85c822-8",
        "{936da01f-9abd-4d9d-80c7-02af85c822a8}",
    ] {
        assert!(!is_valid_key(key), "{}", key);
        assert!(Registration::open(String::from("bob"), String::from(key)).is_none());
    }
}

#[test]
fn key_form_is_counted_in_characters() {
    assert!(is_valid_key(KEY));
    assert!(is_valid_key("00000000-0000-0000-0000-000000000000"));
    assert!(is_valid_key("ffffffff-ffff-ffff-ffff-ffffffffffff"));
    // 36 characters, more bytes
    assert!(!is_valid_key("é36da01f-9abd-4d9d-80c7-02af85c822a8"));
    // 36 bytes, fewer characters
    assert!(!is_valid_key("é36da01f-9abd-4d9d-80c7-02af85c822a"));
    assert!(!is_valid_key("936da01f-9abd-4d9d-80c7-02af85c822a/"));
    assert!(!is_valid_key("936da01f-9abd-4d9d-80c7-02af85c822a:"));
    assert!(!is_valid_key("936da01f-9abd-4d9d-80c7-02af85c822a`"));
    assert!(!is_valid_key("936da01f-9abd-4d9d-80c7-02af85c822ag"));
}

#[test]
fn failed_connection_is_500_and_nothing_is_stored() {
    let mut registration = opened("alice", KEY);
    assert_eq!(
        registration.step(StorageEvent::Failed(report(&["unable to open database file"]))),
        Some(RegistrationStep::Respond(failure(
            "couldn't get connection\n\nCaused by:\n    unable to open database file"
        )))
    );
    assert_eq!(registration.stage(), RegistrationStage::Finished);
    assert_eq!(registration.step(StorageEvent::Connected), None);
    assert_eq!(registration.step(StorageEvent::Stored), None);
}

#[test]
fn failed_statement_is_500() {
    let mut registration = opened("alice", KEY);
    registration.step(StorageEvent::Connected);
    assert_eq!(
        registration.step(StorageEvent::Failed(report(&[
            "error returned from database: no such table: users",
            "no such table: users",
        ]))),
        Some(RegistrationStep::Respond(failure(
            "couldn't run query\n\nCaused by:\n    \
             0: error returned from database: no such table: users\n    \
             1: no such table: users"
        )))
    );
    assert_eq!(registration.stage(), RegistrationStage::Finished);
}

#[test]
fn event_that_answers_nothing_changes_nothing() {
    let mut registration = opened("alice", KEY);
    assert_eq!(registration.step(StorageEvent::Stored), None);
    assert_eq!(registration.stage(), RegistrationStage::Connecting);
    registration.step(StorageEvent::Connected);
    assert_eq!(registration.step(StorageEvent::Connected), None);
    assert_eq!(registration.stage(), RegistrationStage::Inserting);
    registration.step(StorageEvent::Stored);
    assert_eq!(registration.step(StorageEvent::Stored), None);
    assert_eq!(registration.step(StorageEvent::Failed(report(&["late"]))), None);
    assert_eq!(registration.stage(), RegistrationStage::Finished);
    assert_eq!(registration.name(), "alice");
    assert_eq!(registration.key(), KEY);
}
