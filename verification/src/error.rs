//! Failures of the two paths, and the text an operator reads for each.
//!
//! An error is what was attempted and, under it, the chain of causes that
//! the failing layer reported. The diagnostic shows all of it: the attempt
//! on the first line and, under a heading, each cause on a line of its own.

use vstd::prelude::*;
use vstd::std_specs::convert::FromSpecImpl;
use vstd::std_specs::iter::IteratorSpec;
use crate::response::Response;

verus! {

/// `String::push` of std: the character is appended and nothing else
/// changes.
pub assume_specification[ String::push ](text: &mut String, c: char)
    ensures
        final(text)@ == old(text)@.push(c),
;

/// What a failing layer reported: its own message first and then the
/// message of each cause beneath it.
#[derive(Debug, PartialEq, Eq)]
pub struct Report {
    pub messages: Vec<String>,
}

impl View for Report {
    type V = Seq<Seq<char>>;

    open spec fn view(&self) -> Seq<Seq<char>> {
        Seq::new(self.messages@.len(), |i: int| self.messages@[i]@)
    }
}

impl Report {
    /// A report of one message.
    pub fn of(message: &str) -> (report: Report)
        ensures
            report@ == seq![message@],
    {
        let mut messages: Vec<String> = Vec::new();
        messages.push(String::from_str(message));
        let report = Report { messages };
        assert(report@ =~= seq![message@]);
        report
    }
}

/// Why a pulse could not be produced, and what was reported of it.
#[derive(Debug, PartialEq, Eq)]
pub enum HardwareError {
    /// The host has no GPIO interface.
    Unavailable(Report),
    /// The pin is claimed already, or a pulse is still in flight on it.
    PinBusy(Report),
    /// The pin cannot be had as an output, or a write or a hold on it
    /// failed.
    PinUnavailable(Report),
}

/// The mathematical content of a [`HardwareError`].
pub enum HardwareErrorView {
    Unavailable(Seq<Seq<char>>),
    PinBusy(Seq<Seq<char>>),
    PinUnavailable(Seq<Seq<char>>),
}

impl View for HardwareError {
    type V = HardwareErrorView;

    open spec fn view(&self) -> HardwareErrorView {
        match self {
            HardwareError::Unavailable(report) => HardwareErrorView::Unavailable(report@),
            HardwareError::PinBusy(report) => HardwareErrorView::PinBusy(report@),
            HardwareError::PinUnavailable(report) => HardwareErrorView::PinUnavailable(report@),
        }
    }
}

impl HardwareErrorView {
    /// What was being attempted when the error arose.
    pub open spec fn context_text(self) -> Seq<char> {
        match self {
            HardwareErrorView::Unavailable(_) => "couldn't get RPi GPIO"@,
            HardwareErrorView::PinBusy(_) => "couldn't get access to pin"@,
            HardwareErrorView::PinUnavailable(_) => "couldn't get access to pin"@,
        }
    }

    /// The chain of causes, outermost first.
    pub open spec fn causes(self) -> Seq<Seq<char>> {
        match self {
            HardwareErrorView::Unavailable(causes) => causes,
            HardwareErrorView::PinBusy(causes) => causes,
            HardwareErrorView::PinUnavailable(causes) => causes,
        }
    }

    /// The whole diagnostic of this error.
    pub open spec fn diagnostic_text(self) -> Seq<char> {
        chain_text(self.context_text(), self.causes())
    }
}

impl HardwareError {
    /// What was reported of this error.
    pub fn report(&self) -> (report: &Report)
        ensures
            report@ == self@.causes(),
    {
        match self {
            HardwareError::Unavailable(report) => report,
            HardwareError::PinBusy(report) => report,
            HardwareError::PinUnavailable(report) => report,
        }
    }
}

/// The storage call that failed.
#[derive(Clone, Copy, Debug, PartialEq, Eq, Structural)]
pub enum StorageStage {
    /// No connection could be had.
    Connection,
    /// The statement did not run.
    Query,
}

impl StorageStage {
    /// What was being attempted at this stage.
    pub open spec fn context_text(self) -> Seq<char> {
        match self {
            StorageStage::Connection => "couldn't get connection"@,
            StorageStage::Query => "couldn't run query"@,
        }
    }
}

/// A failure of a handler: what was attempted and why it failed.
#[derive(Debug, PartialEq, Eq)]
pub enum GrgError {
    /// The actuator failed.
    Hardware(HardwareError),
    /// A storage call failed, with what the storage layer reported.
    Storage(StorageStage, Report),
}

/// The decimal digit of a number below ten.
pub open spec fn digit(d: nat) -> char {
    if d == 0 {
        '0'
    } else if d == 1 {
        '1'
    } else if d == 2 {
        '2'
    } else if d == 3 {
        '3'
    } else if d == 4 {
        '4'
    } else if d == 5 {
        '5'
    } else if d == 6 {
        '6'
    } else if d == 7 {
        '7'
    } else if d == 8 {
        '8'
    } else {
        '9'
    }
}

/// A number written in decimal, without leading zeros.
pub open spec fn decimal(n: nat) -> Seq<char>
    decreases n,
{
    if n < 10 {
        seq![digit(n)]
    } else {
        decimal(n / 10).push(digit(n % 10))
    }
}

/// So many spaces.
pub open spec fn spaces(count: nat) -> Seq<char> {
    Seq::new(count, |i: int| ' ')
}

/// What opens the entry of a cause: four spaces if it is the only cause;
/// if there are several, its number from zero, set to the right in a field
/// of five, then a colon and a space.
pub open spec fn entry_indent(number: Option<nat>) -> Seq<char> {
    match number {
        None => spaces(4),
        Some(n) => padding(decimal(n).len()) + decimal(n) + seq![':', ' '],
    }
}

/// The spaces that set a number of `width` digits to the right in a field
/// of five: none if it fills the field or is wider.
pub open spec fn padding(width: nat) -> Seq<char> {
    if width < 5 {
        spaces((5 - width) as nat)
    } else {
        Seq::empty()
    }
}

/// What opens each further line of a cause whose message has several
/// lines: as many spaces as bring it under the first.
pub open spec fn line_indent(number: Option<nat>) -> Seq<char> {
    match number {
        None => spaces(4),
        Some(_) => spaces(7),
    }
}

/// A message with `indent` put after each of its line breaks.
pub open spec fn indent_lines(message: Seq<char>, indent: Seq<char>) -> Seq<char>
    decreases message.len(),
{
    if message.len() == 0 {
        Seq::empty()
    } else if message.last() == '\n' {
        indent_lines(message.drop_last(), indent).push('\n') + indent
    } else {
        indent_lines(message.drop_last(), indent).push(message.last())
    }
}

/// The number under which the cause at `index` is shown: none if it is the
/// only one.
pub open spec fn entry_number(causes: Seq<Seq<char>>, index: int) -> Option<nat> {
    if causes.len() > 1 {
        Some(index as nat)
    } else {
        None
    }
}

/// The entry of the cause at `index`: a line break, then the message,
/// indented.
pub open spec fn cause_entry(causes: Seq<Seq<char>>, index: int) -> Seq<char> {
    let number = entry_number(causes, index);
    seq!['\n'] + entry_indent(number) + indent_lines(causes[index], line_indent(number))
}

/// The entries of the first `count` causes, one after the other.
pub open spec fn cause_entries(causes: Seq<Seq<char>>, count: nat) -> Seq<char>
    decreases count,
{
    if count == 0 {
        Seq::empty()
    } else {
        cause_entries(causes, (count - 1) as nat) + cause_entry(causes, count - 1)
    }
}

/// The heading under which the causes stand, with the empty line before it.
pub open spec fn heading() -> Seq<char> {
    "\n\nCaused by:"@
}

/// The diagnostic of an attempt and the chain of its causes: the attempt
/// alone if there is no cause; else the attempt, an empty line, the heading
/// and the entry of each cause in the order of the chain.
pub open spec fn chain_text(context: Seq<char>, causes: Seq<Seq<char>>) -> Seq<char> {
    if causes.len() == 0 {
        context
    } else {
        context + heading() + cause_entries(causes, causes.len())
    }
}

/// The decimal digit of a number below ten.
fn digit_of(d: usize) -> (c: char)
    requires
        d < 10,
    ensures
        c == digit(d as nat),
{
    if d == 0 {
        '0'
    } else if d == 1 {
        '1'
    } else if d == 2 {
        '2'
    } else if d == 3 {
        '3'
    } else if d == 4 {
        '4'
    } else if d == 5 {
        '5'
    } else if d == 6 {
        '6'
    } else if d == 7 {
        '7'
    } else if d == 8 {
        '8'
    } else {
        '9'
    }
}

/// How many digits a number has in decimal.
fn decimal_width(n: usize) -> (width: usize)
    ensures
        width == decimal(n as nat).len(),
        1 <= width <= 20,
    decreases n,
{
    if n < 10 {
        1
    } else {
        let shorter = decimal_width(n / 10);
        assert(shorter < 20) by {
            lemma_decimal_is_short(n as nat);
        }
        shorter + 1
    }
}

/// A number that fits 64 bits has at most twenty digits.
proof fn lemma_decimal_is_short(n: nat)
    requires
        n <= u64::MAX,
    ensures
        decimal(n).len() <= 20,
{
    reveal_with_fuel(decimal, 21);
}

/// Appends a number in decimal.
fn push_decimal(text: &mut String, n: usize)
    ensures
        final(text)@ == old(text)@ + decimal(n as nat),
    decreases n,
{
    if n >= 10 {
        push_decimal(text, n / 10);
    }
    text.push(digit_of(n % 10));
    assert(text@ =~= old(text)@ + decimal(n as nat));
}

/// Appends so many spaces.
fn push_spaces(text: &mut String, count: usize)
    ensures
        final(text)@ == old(text)@ + spaces(count as nat),
{
    let mut done: usize = 0;
    while done < count
        invariant
            done <= count,
            text@ == old(text)@ + spaces(done as nat),
        decreases count - done,
    {
        text.push(' ');
        done = done + 1;
        assert(text@ =~= old(text)@ + spaces(done as nat));
    }
}

/// Appends a message with `indent` put after each of its line breaks.
fn push_indented(text: &mut String, message: &str, indent: usize)
    ensures
        final(text)@ == old(text)@ + indent_lines(message@, spaces(indent as nat)),
{
    broadcast use vstd::string::group_string_axioms;

    let mut rest = message.chars();
    let ghost mut done: int = 0;
    loop
        invariant
            0 <= done <= message@.len(),
            rest.remaining() == message@.skip(done),
            text@ == old(text)@ + indent_lines(message@.take(done), spaces(indent as nat)),
        ensures
            text@ == old(text)@ + indent_lines(message@, spaces(indent as nat)),
        decreases message@.len() - done,
    {
        match rest.next() {
            None => {
                assert(message@.take(done) =~= message@);
                break ;
            },
            Some(c) => {
                proof {
                    assert(message@.take(done + 1).drop_last() =~= message@.take(done));
                    assert(message@.skip(done).drop_first() =~= message@.skip(done + 1));
                    done = done + 1;
                }
                text.push(c);
                if c == '\n' {
                    push_spaces(text, indent);
                }
                assert(text@ =~= old(text)@ + indent_lines(
                    message@.take(done),
                    spaces(indent as nat),
                ));
            },
        }
    }
}

/// Appends the entry of the cause at `index`.
fn push_entry(text: &mut String, report: &Report, index: usize)
    requires
        index < report@.len(),
    ensures
        final(text)@ == old(text)@ + cause_entry(report@, index as int),
{
    let ghost number = entry_number(report@, index as int);
    let ghost message = report@[index as int];
    text.push('\n');
    if report.messages.len() > 1 {
        let width = decimal_width(index);
        if width < 5 {
            push_spaces(text, 5 - width);
        }
        assert(text@ =~= old(text)@ + seq!['\n'] + padding(width as nat));
        push_decimal(text, index);
        text.push(':');
        text.push(' ');
        assert(text@ =~= old(text)@ + seq!['\n'] + entry_indent(number));
        push_indented(text, report.messages[index].as_str(), 7);
    } else {
        push_spaces(text, 4);
        assert(text@ =~= old(text)@ + seq!['\n'] + entry_indent(number));
        push_indented(text, report.messages[index].as_str(), 4);
    }
    assert(text@ =~= old(text)@ + (seq!['\n'] + entry_indent(number) + indent_lines(
        message,
        line_indent(number),
    )));
}

/// Appends the heading and the entries of all causes, if there is a cause.
fn push_chain(text: &mut String, report: &Report)
    ensures
        final(text)@ == chain_text(old(text)@, report@),
{
    let count = report.messages.len();
    if count == 0 {
        return ;
    }
    text.append("\n\nCaused by:");
    let mut index: usize = 0;
    while index < count
        invariant
            index <= count,
            count == report@.len(),
            text@ == old(text)@ + heading() + cause_entries(report@, index as nat),
        decreases count - index,
    {
        push_entry(text, report, index);
        index = index + 1;
        assert(text@ =~= old(text)@ + heading() + cause_entries(report@, index as nat));
    }
}

impl GrgError {
    /// What was being attempted when the error arose.
    pub open spec fn context_text(self) -> Seq<char> {
        match self {
            GrgError::Hardware(error) => error@.context_text(),
            GrgError::Storage(stage, _) => stage.context_text(),
        }
    }

    /// The chain of causes, outermost first.
    pub open spec fn causes(self) -> Seq<Seq<char>> {
        match self {
            GrgError::Hardware(error) => error@.causes(),
            GrgError::Storage(_, report) => report@,
        }
    }

    /// The whole diagnostic: the attempt, and under it the chain of causes.
    pub open spec fn diagnostic_text(self) -> Seq<char> {
        chain_text(self.context_text(), self.causes())
    }

    /// The diagnostic text of this error, for an operator to read.
    pub fn diagnostic(&self) -> (text: String)
        ensures
            text@ == self.diagnostic_text(),
            text@.len() > 0,
    {
        let mut text = match self {
            GrgError::Hardware(HardwareError::Unavailable(_)) => String::from_str(
                "couldn't get RPi GPIO",
            ),
            GrgError::Hardware(HardwareError::PinBusy(_)) => String::from_str(
                "couldn't get access to pin",
            ),
            GrgError::Hardware(HardwareError::PinUnavailable(_)) => String::from_str(
                "couldn't get access to pin",
            ),
            GrgError::Storage(StorageStage::Connection, _) => String::from_str(
                "couldn't get connection",
            ),
            GrgError::Storage(StorageStage::Query, _) => String::from_str("couldn't run query"),
        };
        match self {
            GrgError::Hardware(error) => push_chain(&mut text, error.report()),
            GrgError::Storage(_, report) => push_chain(&mut text, report),
        }
        proof {
            lemma_diagnostic_is_not_empty(self.context_text(), self.causes());
        }
        text
    }

    /// The answer that reports this error: status 500, and the diagnostic as
    /// its body.
    pub fn into_response(self) -> (response: Response)
        ensures
            response@ == Response::spec_failure(self.diagnostic_text()),
            response@.body.len() > 0,
    {
        let body = self.diagnostic();
        Response::failure(body)
    }
}

/// A diagnostic is never empty if the attempt has a name.
pub proof fn lemma_diagnostic_is_not_empty(context: Seq<char>, causes: Seq<Seq<char>>)
    requires
        context == "couldn't get RPi GPIO"@ || context == "couldn't get access to pin"@ || context
            == "couldn't get connection"@ || context == "couldn't run query"@,
    ensures
        chain_text(context, causes).len() > 0,
{
    reveal_strlit("couldn't get RPi GPIO");
    reveal_strlit("couldn't get access to pin");
    reveal_strlit("couldn't get connection");
    reveal_strlit("couldn't run query");
}

/// A message of one line is shown as it is.
pub proof fn lemma_one_line_is_kept(message: Seq<char>, indent: Seq<char>)
    requires
        !message.contains('\n'),
    ensures
        indent_lines(message, indent) == message,
    decreases message.len(),
{
    if message.len() > 0 {
        let earlier = message.drop_last();
        assert(message.last() == message[message.len() - 1]);
        assert forall|i: int| 0 <= i < earlier.len() implies earlier[i] != '\n' by {
            assert(earlier[i] == message[i]);
        }
        lemma_one_line_is_kept(earlier, indent);
        assert(earlier.push(message.last()) =~= message);
    }
}

/// Nothing is cut from a message of several lines: without what was put
/// after its line breaks it is the message again, and it is at least as
/// long.
pub proof fn lemma_indent_adds_only(message: Seq<char>, indent: Seq<char>)
    ensures
        indent_lines(message, indent).len() >= message.len(),
        indent_lines(message, Seq::empty()) == message,
    decreases message.len(),
{
    if message.len() > 0 {
        lemma_indent_adds_only(message.drop_last(), indent);
        assert(message.drop_last().push(message.last()) =~= message);
        assert(message.drop_last().push('\n') + Seq::<char>::empty() =~= message.drop_last().push(
            '\n',
        ));
    }
}

/// The diagnostic opens with the attempt, whatever the causes.
pub proof fn lemma_diagnostic_opens_with_attempt(context: Seq<char>, causes: Seq<Seq<char>>)
    ensures
        chain_text(context, causes).len() >= context.len(),
        chain_text(context, causes).take(context.len() as int) == context,
{
    assert(chain_text(context, causes).take(context.len() as int) =~= context);
}

/// An attempt with one cause of one line reads: the attempt, an empty
/// line, the heading, and on the next line the cause behind four spaces.
pub proof fn lemma_diagnostic_of_one_cause(context: Seq<char>, cause: Seq<char>)
    requires
        !cause.contains('\n'),
    ensures
        chain_text(context, seq![cause]) == context + "\n\nCaused by:\n    "@ + cause,
{
    reveal_strlit("\n\nCaused by:");
    reveal_strlit("\n\nCaused by:\n    ");
    lemma_one_line_is_kept(cause, spaces(4));
    let causes = seq![cause];
    reveal_with_fuel(cause_entries, 2);
    assert(cause_entries(causes, 0) =~= Seq::<char>::empty());
    assert(cause_entries(causes, 1) =~= seq!['\n'] + spaces(4) + cause);
    assert(heading() + (seq!['\n'] + spaces(4)) =~= "\n\nCaused by:\n    "@);
    assert(chain_text(context, causes) =~= context + "\n\nCaused by:\n    "@ + cause);
}

/// An attempt with two causes of one line each reads: the attempt, an
/// empty line, the heading, and then the causes in their order, each on a
/// line of its own behind its number.
pub proof fn lemma_diagnostic_of_two_causes(
    context: Seq<char>,
    first: Seq<char>,
    second: Seq<char>,
)
    requires
        !first.contains('\n'),
        !second.contains('\n'),
    ensures
        chain_text(context, seq![first, second]) == context + "\n\nCaused by:\n    0: "@ + first
            + "\n    1: "@ + second,
{
    reveal_strlit("\n\nCaused by:");
    reveal_strlit("\n\nCaused by:\n    0: ");
    reveal_strlit("\n    1: ");
    lemma_one_line_is_kept(first, spaces(7));
    lemma_one_line_is_kept(second, spaces(7));
    let causes = seq![first, second];
    reveal_with_fuel(cause_entries, 3);
    assert(decimal(0) =~= seq!['0']);
    assert(decimal(1) =~= seq!['1']);
    assert(entry_indent(Some(0nat)) =~= seq![' ', ' ', ' ', ' ', '0', ':', ' ']);
    assert(entry_indent(Some(1nat)) =~= seq![' ', ' ', ' ', ' ', '1', ':', ' ']);
    assert(heading() + (seq!['\n'] + entry_indent(Some(0nat))) =~= "\n\nCaused by:\n    0: "@);
    assert(seq!['\n'] + entry_indent(Some(1nat)) =~= "\n    1: "@);
    assert(cause_entries(causes, 0) =~= Seq::<char>::empty());
    assert(cause_entries(causes, 1) =~= seq!['\n'] + entry_indent(Some(0nat)) + first);
    assert(cause_entries(causes, 2) =~= seq!['\n'] + entry_indent(Some(0nat)) + first + (seq![
        '\n',
    ] + entry_indent(Some(1nat))) + second);
    assert(chain_text(context, causes) =~= context + "\n\nCaused by:\n    0: "@ + first
        + "\n    1: "@ + second);
}

impl From<HardwareError> for GrgError {
    fn from(error: HardwareError) -> (wrapped: GrgError) {
        GrgError::Hardware(error)
    }
}

impl FromSpecImpl<HardwareError> for GrgError {
    open spec fn obeys_from_spec() -> bool {
        true
    }

    open spec fn from_spec(error: HardwareError) -> GrgError {
        GrgError::Hardware(error)
    }
}

} // verus!
