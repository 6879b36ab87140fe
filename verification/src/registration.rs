//! Registering a user: a fresh access key, stored beside the display name and
//! shown once to the registrant.
//!
//! The library issues the key and decides each step; the program around it
//! talks to the storage and reports back what happened.

use vstd::prelude::*;
use crate::error::{lemma_diagnostic_is_not_empty, GrgError, Report, StorageStage};
use crate::response::{Content, Response, ResponseView};

verus! {

/// Number of characters of an access key.
pub const KEY_LENGTH: usize = 36;

/// The statement that stores a registration. Its first parameter is the
/// display name, its second the access key.
pub const INSERT_USER: &'static str = "INSERT INTO users (name, key) VALUES (?1, ?2)";

/// A digit of lower-case hexadecimal.
pub open spec fn is_hex_digit(c: char) -> bool {
    ('0' <= c && c <= '9') || ('a' <= c && c <= 'f')
}

/// The places of an access key that hold a hyphen.
pub open spec fn is_hyphen_position(i: int) -> bool {
    i == 8 || i == 13 || i == 18 || i == 23
}

/// The textual form of a 128-bit identifier: 32 lower-case hexadecimal
/// digits in groups of 8, 4, 4, 4 and 12, with a hyphen between two groups.
pub open spec fn is_key_text(s: Seq<char>) -> bool {
    &&& s.len() == KEY_LENGTH
    &&& forall|i: int|
        0 <= i < s.len() ==> if is_hyphen_position(i) {
            #[trigger] s[i] == '-'
        } else {
            is_hex_digit(s[i])
        }
}

/// A key text that marks its identifier as a random one: the digit that
/// opens the third group is 4, and the digit that opens the fourth group
/// is 8, 9, a or b.
pub open spec fn is_random_key_text(s: Seq<char>) -> bool {
    &&& is_key_text(s)
    &&& s[14] == '4'
    &&& (s[19] == '8' || s[19] == '9' || s[19] == 'a' || s[19] == 'b')
}

/// What stands before the key in the page shown to the registrant.
pub open spec fn page_prefix() -> Seq<char> {
    "<h1>User code</h1><p>"@
}

/// What stands after the key in the page shown to the registrant.
pub open spec fn page_suffix() -> Seq<char> {
    "</p>"@
}

/// The page shown to the registrant.
pub open spec fn user_code_page_text(key: Seq<char>) -> Seq<char> {
    page_prefix() + key + page_suffix()
}

/// Asks `uuid::Uuid::new_v4` for a random identifier and renders it with
/// the `Display` impl of `uuid::Uuid`.
///
/// Believed of the two, and not proved here: `Display` writes the lower-case
/// hyphenated form, 36 characters; `new_v4` fixes the version digit to 4 and
/// the variant digit to one of 8, 9, a, b. Which identifier comes back is
/// left open: two calls need not agree. `new_v4` panics if the operating
/// system hands out no random bytes.
#[verifier::external_body]
fn random_key() -> (key: String)
    ensures
        is_random_key_text(key@),
{
    uuid::Uuid::new_v4().to_string()
}

/// Whether `text` has the form of an access key.
pub fn is_valid_key(text: &str) -> (valid: bool)
    ensures
        valid == is_key_text(text@),
{
    if text.unicode_len() != KEY_LENGTH {
        return false;
    }
    let mut i: usize = 0;
    while i < KEY_LENGTH
        invariant
            i <= KEY_LENGTH,
            text@.len() == KEY_LENGTH,
            forall|j: int|
                0 <= j < i ==> if is_hyphen_position(j) {
                    #[trigger] text@[j] == '-'
                } else {
                    is_hex_digit(text@[j])
                },
        decreases KEY_LENGTH - i,
    {
        let c = text.get_char(i);
        let fits = if i == 8 || i == 13 || i == 18 || i == 23 {
            c == '-'
        } else {
            ('0' <= c && c <= '9') || ('a' <= c && c <= 'f')
        };
        if !fits {
            assert(!is_key_text(text@)) by {
                let j = i as int;
                assert(if is_hyphen_position(j) {
                    text@[j] != '-'
                } else {
                    !is_hex_digit(text@[j])
                });
            }
            return false;
        }
        i = i + 1;
    }
    true
}

/// The page that shows `key` to the registrant.
pub fn user_code_page(key: &str) -> (page: String)
    ensures
        page@ == user_code_page_text(key@),
{
    let mut page = String::from_str("<h1>User code</h1><p>");
    page.append(key);
    page.append("</p>");
    page
}

/// What the storage reported back.
#[derive(Debug, PartialEq, Eq)]
pub enum StorageEvent {
    /// A connection was had.
    Connected,
    /// The statement ran.
    Stored,
    /// The call failed, with what the storage layer reported of it.
    Failed(Report),
}

/// What is to be done next for a registration.
#[derive(Debug, PartialEq, Eq)]
pub enum RegistrationStep {
    /// Get a connection to the storage.
    Connect,
    /// Run [`INSERT_USER`] with these two parameters.
    Insert { name: String, key: String },
    /// Answer the request; the registration is over.
    Respond(Response),
}

/// The mathematical content of a [`RegistrationStep`].
pub enum RegistrationStepView {
    Connect,
    Insert { name: Seq<char>, key: Seq<char> },
    Respond(ResponseView),
}

impl View for RegistrationStep {
    type V = RegistrationStepView;

    open spec fn view(&self) -> RegistrationStepView {
        match self {
            RegistrationStep::Connect => RegistrationStepView::Connect,
            RegistrationStep::Insert { name, key } => RegistrationStepView::Insert {
                name: name@,
                key: key@,
            },
            RegistrationStep::Respond(response) => RegistrationStepView::Respond(response@),
        }
    }
}

/// The content of a step that may be absent.
pub open spec fn step_view(step: Option<RegistrationStep>) -> Option<RegistrationStepView> {
    match step {
        Some(step) => Some(step@),
        None => None,
    }
}

/// How far a registration has come.
#[derive(Clone, Copy, Debug, PartialEq, Eq, Structural)]
pub enum RegistrationStage {
    /// Waiting for a connection.
    Connecting,
    /// Waiting for the statement to run.
    Inserting,
    /// Answered.
    Finished,
}

/// One registration under way.
#[derive(Debug)]
pub struct Registration {
    name: String,
    key: String,
    stage: RegistrationStage,
}

/// The mathematical content of a [`Registration`].
pub struct RegistrationView {
    pub name: Seq<char>,
    pub key: Seq<char>,
    pub stage: RegistrationStage,
}

impl RegistrationView {
    /// A registration that has just been opened.
    pub open spec fn opened(name: Seq<char>, key: Seq<char>) -> RegistrationView {
        RegistrationView { name, key, stage: RegistrationStage::Connecting }
    }

    /// The registration after `event`, and what is to be done next. An event
    /// that answers nothing the registration waits for changes nothing.
    pub open spec fn step(self, event: StorageEvent) -> (
        RegistrationView,
        Option<RegistrationStepView>,
    ) {
        match (self.stage, event) {
            (RegistrationStage::Connecting, StorageEvent::Connected) => (
                RegistrationView { stage: RegistrationStage::Inserting, ..self },
                Some(RegistrationStepView::Insert { name: self.name, key: self.key }),
            ),
            (RegistrationStage::Connecting, StorageEvent::Failed(detail)) => (
                RegistrationView { stage: RegistrationStage::Finished, ..self },
                Some(
                    RegistrationStepView::Respond(
                        Response::spec_failure(
                            GrgError::Storage(StorageStage::Connection, detail).diagnostic_text(),
                        ),
                    ),
                ),
            ),
            (RegistrationStage::Inserting, StorageEvent::Stored) => (
                RegistrationView { stage: RegistrationStage::Finished, ..self },
                Some(
                    RegistrationStepView::Respond(
                        Response::spec_page(user_code_page_text(self.key)),
                    ),
                ),
            ),
            (RegistrationStage::Inserting, StorageEvent::Failed(detail)) => (
                RegistrationView { stage: RegistrationStage::Finished, ..self },
                Some(
                    RegistrationStepView::Respond(
                        Response::spec_failure(
                            GrgError::Storage(StorageStage::Query, detail).diagnostic_text(),
                        ),
                    ),
                ),
            ),
            _ => (self, None),
        }
    }
}

impl View for Registration {
    type V = RegistrationView;

    closed spec fn view(&self) -> RegistrationView {
        RegistrationView { name: self.name@, key: self.key@, stage: self.stage }
    }
}

impl Registration {
    /// The key of a registration always has the form of an access key.
    #[verifier::type_invariant]
    spec fn key_is_valid(self) -> bool {
        is_key_text(self.key@)
    }

    /// Opens a registration for `name` under `key` and asks for a connection
    /// to the storage; `None` if `key` has not the form of an access key.
    /// Nothing is asked of the name.
    pub fn open(name: String, key: String) -> (opened: Option<(Registration, RegistrationStep)>)
        ensures
            opened is Some <==> is_key_text(key@),
            opened matches Some((registration, first)) ==> registration@
                == RegistrationView::opened(name@, key@) && first@
                == RegistrationStepView::Connect,
    {
        if is_valid_key(key.as_str()) {
            Some(
                (
                    Registration { name, key, stage: RegistrationStage::Connecting },
                    RegistrationStep::Connect,
                ),
            )
        } else {
            None
        }
    }

    /// The display name being registered.
    pub fn name(&self) -> (name: &str)
        ensures
            name@ == self@.name,
    {
        self.name.as_str()
    }

    /// The access key issued for this registration.
    pub fn key(&self) -> (key: &str)
        ensures
            key@ == self@.key,
            is_key_text(key@),
    {
        proof {
            use_type_invariant(self);
        }
        self.key.as_str()
    }

    /// How far the registration has come.
    pub fn stage(&self) -> (stage: RegistrationStage)
        ensures
            stage == self@.stage,
    {
        self.stage
    }

    /// Takes what the storage reported and says what is to be done next:
    /// `None` if the event answers nothing the registration waits for.
    pub fn step(&mut self, event: StorageEvent) -> (next: Option<RegistrationStep>)
        ensures
            (final(self)@, step_view(next)) == old(self)@.step(event),
            is_key_text(final(self)@.key),
    {
        proof {
            use_type_invariant(&*self);
        }
        match (self.stage, event) {
            (RegistrationStage::Connecting, StorageEvent::Connected) => {
                self.stage = RegistrationStage::Inserting;
                Some(RegistrationStep::Insert { name: self.name.clone(), key: self.key.clone() })
            },
            (RegistrationStage::Connecting, StorageEvent::Failed(detail)) => {
                self.stage = RegistrationStage::Finished;
                let error = GrgError::Storage(StorageStage::Connection, detail);
                Some(RegistrationStep::Respond(error.into_response()))
            },
            (RegistrationStage::Inserting, StorageEvent::Stored) => {
                self.stage = RegistrationStage::Finished;
                Some(RegistrationStep::Respond(Response::page(user_code_page(self.key.as_str()))))
            },
            (RegistrationStage::Inserting, StorageEvent::Failed(detail)) => {
                self.stage = RegistrationStage::Finished;
                let error = GrgError::Storage(StorageStage::Query, detail);
                Some(RegistrationStep::Respond(error.into_response()))
            },
            _ => None,
        }
    }
}

/// Opens a registration for `name`: issues a fresh access key, at random,
/// and asks for a connection to the storage. Nothing is asked of the name,
/// and no two registrations are held to differ in their keys by anything
/// but chance.
pub fn create_user(name: String) -> (opened: (Registration, RegistrationStep))
    ensures
        is_random_key_text(opened.0@.key),
        opened.0@ == RegistrationView::opened(name@, opened.0@.key),
        opened.1@ == RegistrationStepView::Connect,
{
    let key = random_key();
    (Registration { name, key, stage: RegistrationStage::Connecting }, RegistrationStep::Connect)
}

/// The page shows the key and nothing else between its fixed parts: the key
/// can be read back from the page at the place where it stands.
pub proof fn lemma_page_holds_key(key: Seq<char>)
    ensures
        user_code_page_text(key).len() == page_prefix().len() + key.len() + page_suffix().len(),
        user_code_page_text(key).subrange(
            page_prefix().len() as int,
            (page_prefix().len() + key.len()) as int,
        ) == key,
{
    assert(user_code_page_text(key).subrange(
        page_prefix().len() as int,
        (page_prefix().len() + key.len()) as int,
    ) =~= key);
}

/// A registration whose storage calls both succeed stores the name under
/// the key that was issued, and then answers 200 with the page that shows
/// that key.
pub proof fn lemma_registration_shows_stored_key(opened: RegistrationView)
    requires
        opened.stage is Connecting,
    ensures
        ({
            let (connected, first) = opened.step(StorageEvent::Connected);
            let (stored, second) = connected.step(StorageEvent::Stored);
            &&& first == Some(RegistrationStepView::Insert { name: opened.name, key: opened.key })
            &&& second == Some(
                RegistrationStepView::Respond(
                    ResponseView {
                        status: 200,
                        content: Content::Html,
                        body: user_code_page_text(opened.key),
                    },
                ),
            )
            &&& stored.stage is Finished
        }),
{
}

/// A registration whose storage fails answers 500 with a body that is not
/// empty, at whichever call the failure came, and nothing is stored after a
/// failed connection.
pub proof fn lemma_registration_reports_failure(opened: RegistrationView, detail: Report)
    requires
        !(opened.stage is Finished),
    ensures
        ({
            let (failed, next) = opened.step(StorageEvent::Failed(detail));
            &&& failed.stage is Finished
            &&& next matches Some(RegistrationStepView::Respond(response))
            &&& response.status == 500
            &&& response.body.len() > 0
        }),
{
    lemma_diagnostic_is_not_empty(StorageStage::Connection.context_text(), detail@);
    lemma_diagnostic_is_not_empty(StorageStage::Query.context_text(), detail@);
}

/// A registration that is finished takes no further step.
pub proof fn lemma_finished_registration_is_over(finished: RegistrationView, event: StorageEvent)
    requires
        finished.stage is Finished,
    ensures
        finished.step(event) == (finished, None::<RegistrationStepView>),
{
}


} // verus!
