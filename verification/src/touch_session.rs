//! A session with the fingerprint sensor: which step follows which.
//!
//! A session asks for one step at a time. Whoever talks to the device carries it out and tells the
//! session what came of it.

use crate::fingerprint::{
    answer_outcome, build_command, check_written, ensure_success, image_has_finger,
    law_answer_ends_itself, law_answer_gives_back_payload, law_each_byte_counts_once,
    law_packet_has_this_layout, packet, packet_end, presence_outcome, protocol_fault_text, receive,
    success_outcome, ProtocolError, Reply, TouchEvent, COMMAND_GET_IMAGE, COMMAND_HANDSHAKE,
    COMMAND_INIT_STATUS, COMMAND_SLEEP, PACKET_ANSWER, PACKET_COMMAND, SLEEP_INTERRUPT_CHECK,
    SLEEP_INTERRUPT_WAIT,
};
use crate::text::{hex_byte, hex_byte_text, hex_word, hex_word_text, join2, join3, join5};
use vstd::prelude::*;

verus! {

// ---------------------------------------------------------------------------------------------
// Questions
// ---------------------------------------------------------------------------------------------
/// A command that is sent for the sake of its answer.
#[derive(Clone, Copy, Debug, PartialEq, Eq, Structural)]
pub enum Question {
    /// Whether this is a sensor of the right kind.
    Handshake,
    /// How the sensor has started. Some sensors do not answer.
    InitStatus,
    /// Prepares the interrupt: have it checked.
    SleepCheck,
    /// Prepares the interrupt: have it waited for.
    SleepWait,
    /// Whether there is a finger, after an interrupt.
    Presence,
    /// Whether the finger is still there.
    Release,
}

/// The command of a question.
pub open spec fn question_command(question: Question) -> u8 {
    match question {
        Question::Handshake => COMMAND_HANDSHAKE,
        Question::InitStatus => COMMAND_INIT_STATUS,
        Question::SleepCheck => COMMAND_SLEEP,
        Question::SleepWait => COMMAND_SLEEP,
        Question::Presence => COMMAND_GET_IMAGE,
        Question::Release => COMMAND_GET_IMAGE,
    }
}

/// The data that go with the command of a question.
pub open spec fn question_data(question: Question) -> Seq<u8> {
    match question {
        Question::SleepCheck => seq![SLEEP_INTERRUPT_CHECK],
        Question::SleepWait => seq![SLEEP_INTERRUPT_WAIT],
        _ => seq![],
    }
}

/// The packet of a question.
pub open spec fn question_packet(question: Question) -> Seq<u8> {
    packet(PACKET_COMMAND, seq![question_command(question)] + question_data(question))
}

fn command_of(question: Question) -> (command: u8)
    ensures
        command == question_command(question),
{
    match question {
        Question::Handshake => COMMAND_HANDSHAKE,
        Question::InitStatus => COMMAND_INIT_STATUS,
        Question::SleepCheck => COMMAND_SLEEP,
        Question::SleepWait => COMMAND_SLEEP,
        Question::Presence => COMMAND_GET_IMAGE,
        Question::Release => COMMAND_GET_IMAGE,
    }
}

fn write_question(question: Question) -> (bytes: Vec<u8>)
    ensures
        bytes@ == question_packet(question),
{
    let mut data: Vec<u8> = Vec::new();
    match question {
        Question::SleepCheck => data.push(SLEEP_INTERRUPT_CHECK),
        Question::SleepWait => data.push(SLEEP_INTERRUPT_WAIT),
        _ => (),
    }
    assert(data@ =~= question_data(question));
    match build_command(command_of(question), data.as_slice()) {
        Ok(bytes) => bytes,
        Err(_) => Vec::new(),
    }
}

// ---------------------------------------------------------------------------------------------
// Errors
// ---------------------------------------------------------------------------------------------
/// Why a session has ended.
#[derive(Debug, PartialEq, Eq)]
pub enum SessionError {
    NotFound { vid: u16, pid: u16 },
    Reset,
    Claim,
    Write { command: u8 },
    Read { command: u8 },
    Interrupt,
    SetInterrupt { enabled: bool },
    ReceiverClosed,
    /// The device has answered the handshake like no sensor of the right kind.
    Handshake(Vec<u8>),
    Protocol(ProtocolError),
}

/// A [`SessionError`] by its bytes.
pub enum SessionFault {
    NotFound { vid: u16, pid: u16 },
    Reset,
    Claim,
    Write { command: u8 },
    Read { command: u8 },
    Interrupt,
    SetInterrupt { enabled: bool },
    ReceiverClosed,
    Handshake(Seq<u8>),
    Protocol(ProtocolError),
}

impl View for SessionError {
    type V = SessionFault;

    open spec fn view(&self) -> SessionFault {
        match *self {
            SessionError::NotFound { vid, pid } => SessionFault::NotFound { vid, pid },
            SessionError::Reset => SessionFault::Reset,
            SessionError::Claim => SessionFault::Claim,
            SessionError::Write { command } => SessionFault::Write { command },
            SessionError::Read { command } => SessionFault::Read { command },
            SessionError::Interrupt => SessionFault::Interrupt,
            SessionError::SetInterrupt { enabled } => SessionFault::SetInterrupt { enabled },
            SessionError::ReceiverClosed => SessionFault::ReceiverClosed,
            SessionError::Handshake(response) => SessionFault::Handshake(response@),
            SessionError::Protocol(error) => SessionFault::Protocol(error),
        }
    }
}

/// Bytes as hexadecimal digits with commas between.
pub open spec fn hex_bytes_text(bytes: Seq<u8>) -> Seq<char>
    decreases bytes.len(),
{
    if bytes.len() == 0 {
        Seq::empty()
    } else if bytes.len() == 1 {
        hex_byte_text(bytes[0])
    } else {
        hex_bytes_text(bytes.drop_last()) + ", "@ + hex_byte_text(bytes.last())
    }
}

/// The message for a fault.
pub open spec fn session_fault_text(fault: SessionFault) -> Seq<char> {
    match fault {
        SessionFault::NotFound { vid, pid } => "USB fingerprint sensor "@ + hex_word_text(vid)
            + ":"@ + hex_word_text(pid) + " not found"@,
        SessionFault::Reset => "failed to reset fingerprint sensor"@,
        SessionFault::Claim => "failed to claim fingerprint sensor interface"@,
        SessionFault::Write { command } => "failed to send fingerprint command 0x"@
            + hex_byte_text(command),
        SessionFault::Read { command } => "failed to read fingerprint command 0x"@
            + hex_byte_text(command),
        SessionFault::Interrupt => "failed to read fingerprint touch interrupt"@,
        SessionFault::SetInterrupt { enabled } => if enabled {
            "failed to enable fingerprint touch interrupt"@
        } else {
            "failed to disable fingerprint touch interrupt"@
        },
        SessionFault::ReceiverClosed => "fingerprint touch receiver closed"@,
        SessionFault::Handshake(response) => "unexpected fingerprint handshake response: ["@
            + hex_bytes_text(response) + "]"@,
        SessionFault::Protocol(error) => protocol_fault_text(error),
    }
}

fn write_hex_bytes(bytes: &Vec<u8>) -> (text: String)
    ensures
        text@ == hex_bytes_text(bytes@),
{
    let mut text: String = String::new();
    let mut i: usize = 0;
    assert(bytes@.take(0) =~= Seq::<u8>::empty());
    assert(text@ =~= Seq::<char>::empty());
    while i < bytes.len()
        invariant
            i <= bytes@.len(),
            text@ == hex_bytes_text(bytes@.take(i as int)),
        decreases bytes@.len() - i,
    {
        proof {
            let next = bytes@.take(i as int + 1);
            assert(next.drop_last() =~= bytes@.take(i as int));
            assert(next.last() == bytes@[i as int]);
        }
        if i == 0 {
            text = hex_byte(bytes[i]);
        } else {
            text = join3(text.as_str(), ", ", hex_byte(bytes[i]).as_str());
        }
        i += 1;
    }
    assert(bytes@.take(i as int) =~= bytes@);
    text
}

impl SessionError {
    /// The message for the error, without what the device adds to it.
    pub fn message(&self) -> (text: String)
        ensures
            text@ == session_fault_text(self@),
    {
        match self {
            SessionError::NotFound { vid, pid } => join5(
                "USB fingerprint sensor ",
                hex_word(*vid).as_str(),
                ":",
                hex_word(*pid).as_str(),
                " not found",
            ),
            SessionError::Reset => "failed to reset fingerprint sensor".to_owned(),
            SessionError::Claim => "failed to claim fingerprint sensor interface".to_owned(),
            SessionError::Write { command } => join2(
                "failed to send fingerprint command 0x",
                hex_byte(*command).as_str(),
            ),
            SessionError::Read { command } => join2(
                "failed to read fingerprint command 0x",
                hex_byte(*command).as_str(),
            ),
            SessionError::Interrupt => "failed to read fingerprint touch interrupt".to_owned(),
            SessionError::SetInterrupt { enabled } => if *enabled {
                "failed to enable fingerprint touch interrupt".to_owned()
            } else {
                "failed to disable fingerprint touch interrupt".to_owned()
            },
            SessionError::ReceiverClosed => "fingerprint touch receiver closed".to_owned(),
            SessionError::Handshake(response) => join3(
                "unexpected fingerprint handshake response: [",
                write_hex_bytes(response).as_str(),
                "]",
            ),
            SessionError::Protocol(error) => error.message(),
        }
    }
}

// ---------------------------------------------------------------------------------------------
// Steps
// ---------------------------------------------------------------------------------------------
/// What a session asks for.
#[derive(Debug, PartialEq, Eq)]
pub enum DeviceAction {
    Open { vid: u16, pid: u16 },
    Reset,
    Claim,
    /// Read and drop what the device still has to send.
    Drain,
    /// Send a packet.
    Write(Vec<u8>),
    /// Receive a part of an answer.
    Read,
    SetInterrupt(bool),
    /// Wait for an interrupt for a while.
    AwaitInterrupt,
    /// Hand a touch event on.
    Emit(TouchEvent),
    /// Wait until the next question whether the finger is still there.
    Pause,
    /// The session has ended.
    Stop,
}

/// An action by its bytes.
pub enum DeviceActionView {
    Open { vid: u16, pid: u16 },
    Reset,
    Claim,
    Drain,
    Write(Seq<u8>),
    Read,
    SetInterrupt(bool),
    AwaitInterrupt,
    Emit(TouchEvent),
    Pause,
    Stop,
}

impl View for DeviceAction {
    type V = DeviceActionView;

    open spec fn view(&self) -> DeviceActionView {
        match *self {
            DeviceAction::Open { vid, pid } => DeviceActionView::Open { vid, pid },
            DeviceAction::Reset => DeviceActionView::Reset,
            DeviceAction::Claim => DeviceActionView::Claim,
            DeviceAction::Drain => DeviceActionView::Drain,
            DeviceAction::Write(bytes) => DeviceActionView::Write(bytes@),
            DeviceAction::Read => DeviceActionView::Read,
            DeviceAction::SetInterrupt(enabled) => DeviceActionView::SetInterrupt(enabled),
            DeviceAction::AwaitInterrupt => DeviceActionView::AwaitInterrupt,
            DeviceAction::Emit(event) => DeviceActionView::Emit(event),
            DeviceAction::Pause => DeviceActionView::Pause,
            DeviceAction::Stop => DeviceActionView::Stop,
        }
    }
}

/// What came of an action.
#[derive(Debug, PartialEq, Eq)]
pub enum DeviceEvent {
    Done,
    Failed,
    /// So many bytes were sent.
    Written(usize),
    /// These bytes were received.
    Chunk(Vec<u8>),
    /// An interrupt came, with these bytes.
    Interrupt(Vec<u8>),
    /// No interrupt came for a while.
    Quiet,
}

/// An event by its bytes.
pub enum DeviceEventView {
    Done,
    Failed,
    Written(usize),
    Chunk(Seq<u8>),
    Interrupt(Seq<u8>),
    Quiet,
}

impl View for DeviceEvent {
    type V = DeviceEventView;

    open spec fn view(&self) -> DeviceEventView {
        match *self {
            DeviceEvent::Done => DeviceEventView::Done,
            DeviceEvent::Failed => DeviceEventView::Failed,
            DeviceEvent::Written(count) => DeviceEventView::Written(count),
            DeviceEvent::Chunk(bytes) => DeviceEventView::Chunk(bytes@),
            DeviceEvent::Interrupt(bytes) => DeviceEventView::Interrupt(bytes@),
            DeviceEvent::Quiet => DeviceEventView::Quiet,
        }
    }
}

/// How far a session has come.
#[derive(Debug, PartialEq, Eq)]
pub enum TouchSession {
    Opening { vid: u16, pid: u16 },
    Resetting,
    Claiming,
    /// Getting rid of what is left of an earlier session.
    Clearing,
    /// Sending a question.
    Asking(Question),
    /// Receiving the answer to a question, of which these bytes are there.
    Listening(Question, Vec<u8>),
    /// Getting rid of what is left of an answer that did not come in time.
    ClearingAnswer,
    Announcing(TouchEvent),
    /// Switching the interrupt on.
    Arming,
    /// Waiting for the interrupt.
    Waiting,
    /// Switching the interrupt off.
    Disarming,
    /// Letting the finger rest before asking again.
    Pausing,
    Over(SessionError),
}

/// A [`TouchSession`] by its bytes.
pub enum SessionView {
    Opening { vid: u16, pid: u16 },
    Resetting,
    Claiming,
    Clearing,
    Asking(Question),
    Listening(Question, Seq<u8>),
    ClearingAnswer,
    Announcing(TouchEvent),
    Arming,
    Waiting,
    Disarming,
    Pausing,
    Over(SessionFault),
}

impl View for TouchSession {
    type V = SessionView;

    open spec fn view(&self) -> SessionView {
        match *self {
            TouchSession::Opening { vid, pid } => SessionView::Opening { vid, pid },
            TouchSession::Resetting => SessionView::Resetting,
            TouchSession::Claiming => SessionView::Claiming,
            TouchSession::Clearing => SessionView::Clearing,
            TouchSession::Asking(question) => SessionView::Asking(question),
            TouchSession::Listening(question, received) => SessionView::Listening(
                question,
                received@,
            ),
            TouchSession::ClearingAnswer => SessionView::ClearingAnswer,
            TouchSession::Announcing(event) => SessionView::Announcing(event),
            TouchSession::Arming => SessionView::Arming,
            TouchSession::Waiting => SessionView::Waiting,
            TouchSession::Disarming => SessionView::Disarming,
            TouchSession::Pausing => SessionView::Pausing,
            TouchSession::Over(error) => SessionView::Over(error@),
        }
    }
}

// ---------------------------------------------------------------------------------------------
// Model
// ---------------------------------------------------------------------------------------------
/// The bytes of the interrupt with which the sensor reports a touch.
pub open spec fn touch_interrupt() -> Seq<u8> {
    seq![0x04, 0xe5]
}

/// Whether an answer to the handshake is that of a sensor of the right kind.
pub open spec fn is_greeting(response: Seq<u8>) -> bool {
    response.len() >= 3 && response[0] == 0 && response[1] == 0x4d && response[2] == 0x41
}

/// What follows when a question got no proper answer. The sensor may leave the question how it has
/// started unanswered; any other makes the session end.
pub open spec fn after_failure(question: Question, fault: SessionFault) -> SessionView {
    match question {
        Question::InitStatus => SessionView::ClearingAnswer,
        _ => SessionView::Over(fault),
    }
}

/// What follows when a question was answered.
pub open spec fn after_answer(question: Question, response: Seq<u8>) -> SessionView {
    match question {
        Question::Handshake => if is_greeting(response) {
            SessionView::Asking(Question::InitStatus)
        } else {
            SessionView::Over(SessionFault::Handshake(response))
        },
        Question::InitStatus => SessionView::Announcing(TouchEvent::Released),
        Question::SleepCheck => match success_outcome(COMMAND_SLEEP, response) {
            Ok(()) => SessionView::Asking(Question::SleepWait),
            Err(error) => SessionView::Over(SessionFault::Protocol(error)),
        },
        Question::SleepWait => match success_outcome(COMMAND_SLEEP, response) {
            Ok(()) => SessionView::Arming,
            Err(error) => SessionView::Over(SessionFault::Protocol(error)),
        },
        Question::Presence => match presence_outcome(response) {
            Ok(true) => SessionView::Announcing(TouchEvent::Pressed),
            Ok(false) => SessionView::Asking(Question::SleepCheck),
            Err(error) => SessionView::Over(SessionFault::Protocol(error)),
        },
        Question::Release => match presence_outcome(response) {
            Ok(true) => SessionView::Pausing,
            Ok(false) => SessionView::Announcing(TouchEvent::Released),
            Err(error) => SessionView::Over(SessionFault::Protocol(error)),
        },
    }
}

/// What follows when bytes of an answer have come in.
pub open spec fn after_bytes(question: Question, bytes: Seq<u8>) -> SessionView {
    match packet_end(bytes) {
        None => SessionView::Listening(question, bytes),
        Some(end) => match answer_outcome(bytes.take(end)) {
            Ok(response) => after_answer(question, response),
            Err(error) => after_failure(question, SessionFault::Protocol(error)),
        },
    }
}

impl SessionView {
    /// What the session asks for.
    pub open spec fn action(self) -> DeviceActionView {
        match self {
            SessionView::Opening { vid, pid } => DeviceActionView::Open { vid, pid },
            SessionView::Resetting => DeviceActionView::Reset,
            SessionView::Claiming => DeviceActionView::Claim,
            SessionView::Clearing => DeviceActionView::Drain,
            SessionView::Asking(question) => DeviceActionView::Write(question_packet(question)),
            SessionView::Listening(..) => DeviceActionView::Read,
            SessionView::ClearingAnswer => DeviceActionView::Drain,
            SessionView::Announcing(event) => DeviceActionView::Emit(event),
            SessionView::Arming => DeviceActionView::SetInterrupt(true),
            SessionView::Waiting => DeviceActionView::AwaitInterrupt,
            SessionView::Disarming => DeviceActionView::SetInterrupt(false),
            SessionView::Pausing => DeviceActionView::Pause,
            SessionView::Over(_) => DeviceActionView::Stop,
        }
    }

    /// What follows when the action was carried out.
    pub open spec fn after_done(self) -> SessionView {
        match self {
            SessionView::Opening { .. } => SessionView::Resetting,
            SessionView::Resetting => SessionView::Claiming,
            SessionView::Claiming => SessionView::Clearing,
            SessionView::Clearing => SessionView::Asking(Question::Handshake),
            SessionView::ClearingAnswer => SessionView::Announcing(TouchEvent::Released),
            SessionView::Announcing(TouchEvent::Pressed) => SessionView::Asking(Question::Release),
            SessionView::Announcing(TouchEvent::Released) => SessionView::Asking(
                Question::SleepCheck,
            ),
            SessionView::Arming => SessionView::Waiting,
            SessionView::Disarming => SessionView::Asking(Question::Presence),
            SessionView::Pausing => SessionView::Asking(Question::Release),
            _ => self,
        }
    }

    /// What follows when the action could not be carried out.
    pub open spec fn after_failed(self) -> SessionView {
        match self {
            SessionView::Opening { vid, pid } => SessionView::Over(
                SessionFault::NotFound { vid, pid },
            ),
            SessionView::Resetting => SessionView::Over(SessionFault::Reset),
            SessionView::Claiming => SessionView::Over(SessionFault::Claim),
            SessionView::Asking(question) => after_failure(
                question,
                SessionFault::Write { command: question_command(question) },
            ),
            SessionView::Listening(question, _) => after_failure(
                question,
                SessionFault::Read { command: question_command(question) },
            ),
            SessionView::Announcing(_) => SessionView::Over(SessionFault::ReceiverClosed),
            SessionView::Arming => SessionView::Over(SessionFault::SetInterrupt { enabled: true }),
            SessionView::Waiting => SessionView::Over(SessionFault::Interrupt),
            SessionView::Disarming => SessionView::Over(
                SessionFault::SetInterrupt { enabled: false },
            ),
            _ => self,
        }
    }

    /// What follows an event. One that is no answer to the action changes nothing.
    pub open spec fn after(self, event: DeviceEventView) -> SessionView {
        match (event, self) {
            (DeviceEventView::Done, _) => self.after_done(),
            (DeviceEventView::Failed, _) => self.after_failed(),
            (DeviceEventView::Written(written), SessionView::Asking(question)) => {
                let length = question_packet(question).len();
                if written == length {
                    SessionView::Listening(question, Seq::empty())
                } else {
                    after_failure(
                        question,
                        SessionFault::Protocol(
                            ProtocolError::ShortWrite { written, length: length as usize },
                        ),
                    )
                }
            },
            (DeviceEventView::Chunk(chunk), SessionView::Listening(question, received)) =>
                after_bytes(question, received + chunk),
            (DeviceEventView::Interrupt(bytes), SessionView::Waiting) => if bytes
                == touch_interrupt() {
                SessionView::Disarming
            } else {
                self
            },
            _ => self,
        }
    }
}

// ---------------------------------------------------------------------------------------------
// Session
// ---------------------------------------------------------------------------------------------
fn failure(question: Question, error: SessionError) -> (session: TouchSession)
    ensures
        session@ == after_failure(question, error@),
{
    match question {
        Question::InitStatus => TouchSession::ClearingAnswer,
        _ => TouchSession::Over(error),
    }
}

fn answer(question: Question, response: Vec<u8>) -> (session: TouchSession)
    ensures
        session@ == after_answer(question, response@),
{
    match question {
        Question::Handshake => if response.len() >= 3 && response[0] == 0 && response[1] == 0x4d
            && response[2] == 0x41 {
            TouchSession::Asking(Question::InitStatus)
        } else {
            TouchSession::Over(SessionError::Handshake(response))
        },
        Question::InitStatus => TouchSession::Announcing(TouchEvent::Released),
        Question::SleepCheck => match ensure_success(COMMAND_SLEEP, response.as_slice()) {
            Ok(()) => TouchSession::Asking(Question::SleepWait),
            Err(error) => TouchSession::Over(SessionError::Protocol(error)),
        },
        Question::SleepWait => match ensure_success(COMMAND_SLEEP, response.as_slice()) {
            Ok(()) => TouchSession::Arming,
            Err(error) => TouchSession::Over(SessionError::Protocol(error)),
        },
        Question::Presence => match image_has_finger(response.as_slice()) {
            Ok(true) => TouchSession::Announcing(TouchEvent::Pressed),
            Ok(false) => TouchSession::Asking(Question::SleepCheck),
            Err(error) => TouchSession::Over(SessionError::Protocol(error)),
        },
        Question::Release => match image_has_finger(response.as_slice()) {
            Ok(true) => TouchSession::Pausing,
            Ok(false) => TouchSession::Announcing(TouchEvent::Released),
            Err(error) => TouchSession::Over(SessionError::Protocol(error)),
        },
    }
}

fn is_touch(bytes: &Vec<u8>) -> (touch: bool)
    ensures
        touch == (bytes@ == touch_interrupt()),
{
    let touch = bytes.len() == 2 && bytes[0] == 0x04 && bytes[1] == 0xe5;
    proof {
        if touch {
            assert(bytes@ =~= touch_interrupt());
        } else if bytes@ == touch_interrupt() {
            assert(touch_interrupt()[0] == 0x04 && touch_interrupt()[1] == 0xe5);
        }
    }
    touch
}

impl TouchSession {
    /// A session with the sensor that has these numbers.
    pub fn new(vid: u16, pid: u16) -> (session: TouchSession)
        ensures
            session@ == (SessionView::Opening { vid, pid }),
    {
        TouchSession::Opening { vid, pid }
    }

    /// What the session asks for.
    pub fn action(&self) -> (action: DeviceAction)
        ensures
            action@ == self@.action(),
    {
        match self {
            TouchSession::Opening { vid, pid } => DeviceAction::Open { vid: *vid, pid: *pid },
            TouchSession::Resetting => DeviceAction::Reset,
            TouchSession::Claiming => DeviceAction::Claim,
            TouchSession::Clearing => DeviceAction::Drain,
            TouchSession::Asking(question) => DeviceAction::Write(write_question(*question)),
            TouchSession::Listening(_, _) => DeviceAction::Read,
            TouchSession::ClearingAnswer => DeviceAction::Drain,
            TouchSession::Announcing(event) => DeviceAction::Emit(*event),
            TouchSession::Arming => DeviceAction::SetInterrupt(true),
            TouchSession::Waiting => DeviceAction::AwaitInterrupt,
            TouchSession::Disarming => DeviceAction::SetInterrupt(false),
            TouchSession::Pausing => DeviceAction::Pause,
            TouchSession::Over(_) => DeviceAction::Stop,
        }
    }

    fn done(self) -> (session: TouchSession)
        ensures
            session@ == self@.after_done(),
    {
        match self {
            TouchSession::Opening { .. } => TouchSession::Resetting,
            TouchSession::Resetting => TouchSession::Claiming,
            TouchSession::Claiming => TouchSession::Clearing,
            TouchSession::Clearing => TouchSession::Asking(Question::Handshake),
            TouchSession::ClearingAnswer => TouchSession::Announcing(TouchEvent::Released),
            TouchSession::Announcing(TouchEvent::Pressed) => TouchSession::Asking(
                Question::Release,
            ),
            TouchSession::Announcing(TouchEvent::Released) => TouchSession::Asking(
                Question::SleepCheck,
            ),
            TouchSession::Arming => TouchSession::Waiting,
            TouchSession::Disarming => TouchSession::Asking(Question::Presence),
            TouchSession::Pausing => TouchSession::Asking(Question::Release),
            other => other,
        }
    }

    fn failed(self) -> (session: TouchSession)
        ensures
            session@ == self@.after_failed(),
    {
        match self {
            TouchSession::Opening { vid, pid } => TouchSession::Over(
                SessionError::NotFound { vid, pid },
            ),
            TouchSession::Resetting => TouchSession::Over(SessionError::Reset),
            TouchSession::Claiming => TouchSession::Over(SessionError::Claim),
            TouchSession::Asking(question) => failure(
                question,
                SessionError::Write { command: command_of(question) },
            ),
            TouchSession::Listening(question, _) => failure(
                question,
                SessionError::Read { command: command_of(question) },
            ),
            TouchSession::Announcing(_) => TouchSession::Over(SessionError::ReceiverClosed),
            TouchSession::Arming => TouchSession::Over(
                SessionError::SetInterrupt { enabled: true },
            ),
            TouchSession::Waiting => TouchSession::Over(SessionError::Interrupt),
            TouchSession::Disarming => TouchSession::Over(
                SessionError::SetInterrupt { enabled: false },
            ),
            other => other,
        }
    }

    /// The session after an event.
    pub fn advance(self, event: DeviceEvent) -> (session: TouchSession)
        ensures
            session@ == self@.after(event@),
    {
        match (event, self) {
            (DeviceEvent::Done, session) => session.done(),
            (DeviceEvent::Failed, session) => session.failed(),
            (DeviceEvent::Written(written), TouchSession::Asking(question)) => {
                match check_written(written, write_question(question).len()) {
                    Ok(()) => TouchSession::Listening(question, Vec::new()),
                    Err(error) => failure(question, SessionError::Protocol(error)),
                }
            },
            (DeviceEvent::Chunk(chunk), TouchSession::Listening(question, received)) => {
                match receive(received, chunk.as_slice()) {
                    Reply::Partial(bytes) => TouchSession::Listening(question, bytes),
                    Reply::Complete(Ok(response)) => answer(question, response),
                    Reply::Complete(Err(error)) => failure(
                        question,
                        SessionError::Protocol(error),
                    ),
                }
            },
            (DeviceEvent::Interrupt(bytes), TouchSession::Waiting) => {
                if is_touch(&bytes) {
                    TouchSession::Disarming
                } else {
                    TouchSession::Waiting
                }
            },
            (_, session) => session,
        }
    }
}

// ---------------------------------------------------------------------------------------------
// Laws
// ---------------------------------------------------------------------------------------------
impl SessionView {
    /// What follows several events.
    pub open spec fn after_all(self, events: Seq<DeviceEventView>) -> SessionView
        decreases events.len(),
    {
        if events.len() == 0 {
            self
        } else {
            self.after_all(events.drop_last()).after(events.last())
        }
    }

    /// The touch events that have been handed on in the course of several events.
    pub open spec fn emitted(self, events: Seq<DeviceEventView>) -> Seq<TouchEvent>
        decreases events.len(),
    {
        if events.len() == 0 {
            Seq::empty()
        } else {
            let before = self.emitted(events.drop_last());
            match (self.after_all(events.drop_last()), events.last()) {
                (SessionView::Announcing(event), DeviceEventView::Done) => before.push(event),
                _ => before,
            }
        }
    }

    /// The touch event that comes next, if any comes.
    pub open spec fn due(self) -> TouchEvent {
        match self {
            SessionView::Asking(question) => question_due(question),
            SessionView::Listening(question, _) => question_due(question),
            SessionView::Announcing(event) => event,
            SessionView::Arming => TouchEvent::Pressed,
            SessionView::Waiting => TouchEvent::Pressed,
            SessionView::Disarming => TouchEvent::Pressed,
            _ => TouchEvent::Released,
        }
    }
}

/// The touch event that comes next, if any comes, while a question is open.
pub open spec fn question_due(question: Question) -> TouchEvent {
    match question {
        Question::SleepCheck => TouchEvent::Pressed,
        Question::SleepWait => TouchEvent::Pressed,
        Question::Presence => TouchEvent::Pressed,
        _ => TouchEvent::Released,
    }
}

/// Handing a touch event on makes the other one due; nothing else does, as long as the session
/// lasts.
pub proof fn lemma_due_after(session: SessionView, event: DeviceEventView)
    ensures
        session is Over ==> session.after(event) == session,
        session !is Over && session.after(event) !is Over ==> (session.due() != session.after(
            event,
        ).due() <==> session is Announcing && event is Done),
        session matches SessionView::Announcing(touch) ==> session.due() == touch,
{
}

/// The touch event at a place in what a session hands on.
pub open spec fn alternating(place: int) -> TouchEvent {
    if place % 2 == 0 {
        TouchEvent::Released
    } else {
        TouchEvent::Pressed
    }
}

/// A session hands on releases and presses in turn, beginning with a release.
pub proof fn law_events_alternate(vid: u16, pid: u16, events: Seq<DeviceEventView>)
    ensures
        ({
            let emitted = (SessionView::Opening { vid, pid }).emitted(events);
            forall|i: int| 0 <= i < emitted.len() ==> #[trigger] emitted[i] == alternating(i)
        }),
{
    lemma_due_event(vid, pid, events);
}

proof fn lemma_due_event(vid: u16, pid: u16, events: Seq<DeviceEventView>)
    ensures
        ({
            let start = SessionView::Opening { vid, pid };
            let emitted = start.emitted(events);
            let now = start.after_all(events);
            &&& forall|i: int| 0 <= i < emitted.len() ==> #[trigger] emitted[i] == alternating(i)
            &&& now !is Over ==> now.due() == alternating(emitted.len() as int)
        }),
    decreases events.len(),
{
    if events.len() > 0 {
        lemma_due_event(vid, pid, events.drop_last());
    }
}

/// A session sends five packets and no other: the greeting, the question how the sensor has
/// started, the request for an image, whose answer tells of a finger, and the two commands that
/// prepare the interrupt.
pub proof fn law_only_touch_commands(session: SessionView)
    ensures
        session.action() matches DeviceActionView::Write(bytes) ==> {
            ||| bytes == packet(PACKET_COMMAND, seq![COMMAND_HANDSHAKE])
            ||| bytes == packet(PACKET_COMMAND, seq![COMMAND_INIT_STATUS])
            ||| bytes == packet(PACKET_COMMAND, seq![COMMAND_GET_IMAGE])
            ||| bytes == packet(PACKET_COMMAND, seq![COMMAND_SLEEP, SLEEP_INTERRUPT_CHECK])
            ||| bytes == packet(PACKET_COMMAND, seq![COMMAND_SLEEP, SLEEP_INTERRUPT_WAIT])
        },
{
    if let SessionView::Asking(question) = session {
        let payload = seq![question_command(question)] + question_data(question);
        match question {
            Question::SleepCheck => assert(payload =~= seq![COMMAND_SLEEP, SLEEP_INTERRUPT_CHECK]),
            Question::SleepWait => assert(payload =~= seq![COMMAND_SLEEP, SLEEP_INTERRUPT_WAIT]),
            _ => assert(payload =~= seq![question_command(question)]),
        }
    }
}

/// While a session waits for a touch, only the interrupt of a touch gets it to ask for a finger;
/// any other is ignored, and so is silence.
pub proof fn law_only_a_touch_ends_the_wait(event: DeviceEventView)
    ensures
        SessionView::Waiting.after(event) == (match event {
            DeviceEventView::Interrupt(bytes) => if bytes == touch_interrupt() {
                SessionView::Disarming
            } else {
                SessionView::Waiting
            },
            DeviceEventView::Failed => SessionView::Over(SessionFault::Interrupt),
            _ => SessionView::Waiting,
        }),
{
}

/// A session that has ended stays so.
pub proof fn law_end_is_final(fault: SessionFault, events: Seq<DeviceEventView>)
    ensures
        SessionView::Over(fault).after_all(events) == SessionView::Over(fault),
    decreases events.len(),
{
    if events.len() > 0 {
        law_end_is_final(fault, events.drop_last());
    }
}

/// The packets of the questions, byte for byte.
pub proof fn law_questions_have_these_bytes()
    ensures
        question_packet(Question::Handshake) == seq![
            0xefu8, 0x01, 0xff, 0xff, 0xff, 0xff, 0x01, 0x00, 0x03, 0x35, 0x00, 0x39,
        ],
        question_packet(Question::InitStatus) == seq![
            0xefu8, 0x01, 0xff, 0xff, 0xff, 0xff, 0x01, 0x00, 0x03, 0x88, 0x00, 0x8c,
        ],
        question_packet(Question::Presence) == seq![
            0xefu8, 0x01, 0xff, 0xff, 0xff, 0xff, 0x01, 0x00, 0x03, 0x01, 0x00, 0x05,
        ],
        question_packet(Question::Release) == question_packet(Question::Presence),
        question_packet(Question::SleepCheck) == seq![
            0xefu8, 0x01, 0xff, 0xff, 0xff, 0xff, 0x01, 0x00, 0x04, 0x33, 0x01, 0x00, 0x39,
        ],
        question_packet(Question::SleepWait) == seq![
            0xefu8, 0x01, 0xff, 0xff, 0xff, 0xff, 0x01, 0x00, 0x04, 0x33, 0x00, 0x00, 0x38,
        ],
{
    lemma_short_packet(question_packet(Question::Handshake), seq![0x35u8]);
    lemma_short_packet(question_packet(Question::InitStatus), seq![0x88u8]);
    lemma_short_packet(question_packet(Question::Presence), seq![0x01u8]);
    lemma_short_packet(question_packet(Question::SleepCheck), seq![0x33u8, 0x01]);
    lemma_short_packet(question_packet(Question::SleepWait), seq![0x33u8, 0x00]);
    assert(seq![0x35u8] + seq![] =~= seq![0x35u8]);
    assert(seq![0x88u8] + seq![] =~= seq![0x88u8]);
    assert(seq![0x01u8] + seq![] =~= seq![0x01u8]);
    assert(seq![0x33u8] + seq![0x01u8] =~= seq![0x33u8, 0x01]);
    assert(seq![0x33u8] + seq![0x00u8] =~= seq![0x33u8, 0x00]);
}

proof fn lemma_short_packet(bytes: Seq<u8>, payload: Seq<u8>)
    requires
        1 <= payload.len() <= 2,
        payload.len() == 2 ==> payload[0] + payload[1] < 200,
    ensures
        bytes == packet(PACKET_COMMAND, payload) && payload.len() == 1 ==> bytes == seq![
            0xefu8, 0x01, 0xff, 0xff, 0xff, 0xff, 0x01, 0x00, 0x03, payload[0],
            ((payload[0] + 4) / 256) as u8, ((payload[0] + 4) % 256) as u8,
        ],
        bytes == packet(PACKET_COMMAND, payload) && payload.len() == 2 ==> bytes == seq![
            0xefu8, 0x01, 0xff, 0xff, 0xff, 0xff, 0x01, 0x00, 0x04, payload[0], payload[1], 0x00,
            (payload[0] + payload[1] + 5) as u8,
        ],
{
    if bytes == packet(PACKET_COMMAND, payload) {
        law_packet_has_this_layout(PACKET_COMMAND, payload);
        let end = 9 + payload.len() as int;
        let middle = bytes.subrange(6, end);
        assert(bytes.subrange(9, end)[0] == bytes[9]);
        let none = Seq::<u8>::empty();
        let one = none.push(bytes[6]);
        let two = one.push(bytes[7]);
        let three = two.push(bytes[8]);
        let four = three.push(bytes[9]);
        law_each_byte_counts_once(none, bytes[6]);
        law_each_byte_counts_once(one, bytes[7]);
        law_each_byte_counts_once(two, bytes[8]);
        law_each_byte_counts_once(three, bytes[9]);
        if payload.len() == 1 {
            assert(middle =~= four);
            assert(bytes =~= seq![
                0xefu8, 0x01, 0xff, 0xff, 0xff, 0xff, 0x01, 0x00, 0x03, payload[0],
                ((payload[0] + 4) / 256) as u8, ((payload[0] + 4) % 256) as u8,
            ]);
        } else {
            assert(bytes.subrange(9, end)[1] == bytes[10]);
            law_each_byte_counts_once(four, bytes[10]);
            assert(middle =~= four.push(bytes[10]));
            assert(bytes =~= seq![
                0xefu8, 0x01, 0xff, 0xff, 0xff, 0xff, 0x01, 0x00, 0x04, payload[0], payload[1], 0x00,
                (payload[0] + payload[1] + 5) as u8,
            ]);
        }
    }
}

/// A session opens the device, resets it, claims it, reads what it still has to send, and greets
/// it: each step follows once the one before was carried out.
pub proof fn law_session_starts_in_this_order(vid: u16, pid: u16)
    ensures
        ({
            let done = DeviceEventView::Done;
            let opening = SessionView::Opening { vid, pid };
            let resetting = opening.after(done);
            let claiming = resetting.after(done);
            let clearing = claiming.after(done);
            let greeting = clearing.after(done);
            &&& opening.action() == DeviceActionView::Open { vid, pid }
            &&& resetting.action() is Reset
            &&& claiming.action() is Claim
            &&& clearing.action() is Drain
            &&& greeting == SessionView::Asking(Question::Handshake)
        }),
{
}

/// A question is sent, and its answer awaited once all of it was sent. What does not make up a
/// packet yet is kept until more comes in.
pub proof fn law_question_awaits_its_answer(
    question: Question,
    written: usize,
    received: Seq<u8>,
    chunk: Seq<u8>,
)
    ensures
        ({
            let asking = SessionView::Asking(question);
            let length = question_packet(question).len();
            let listening = asking.after(DeviceEventView::Written(written));
            &&& asking.action() == DeviceActionView::Write(question_packet(question))
            &&& written == length ==> listening == SessionView::Listening(question, Seq::empty())
            &&& written != length && question is InitStatus ==> listening is ClearingAnswer
            &&& written != length && question !is InitStatus ==> listening == SessionView::Over(
                SessionFault::Protocol(
                    ProtocolError::ShortWrite { written, length: length as usize },
                ),
            )
        }),
        SessionView::Listening(question, received).action() is Read,
        packet_end(received + chunk) is None ==> SessionView::Listening(question, received).after(
            DeviceEventView::Chunk(chunk),
        ) == SessionView::Listening(question, received + chunk),
{
    law_questions_have_these_bytes();
}

/// What an answer leads to goes by its first bytes. A sensor of the right kind answers the greeting
/// with a zero and two letters. Whatever the answer to the question how the sensor has started, the
/// session goes on with a release. The two commands that prepare the interrupt have to succeed. A
/// finger makes a press of an interrupt and holds a release back; without one, the interrupt is
/// prepared anew, or the release told.
pub proof fn law_answers_lead_on(question: Question, response: Seq<u8>)
    requires
        1 <= response.len() <= 0xffff - 2,
    ensures
        ({
            let next = SessionView::Listening(question, Seq::empty()).after(
                DeviceEventView::Chunk(packet(PACKET_ANSWER, response)),
            );
            let refused = SessionView::Over(
                SessionFault::Protocol(
                    ProtocolError::CommandFailed { command: 0x33, result: response[0] },
                ),
            );
            match question {
                Question::Handshake => next == if response.len() >= 3 && response[0] == 0
                    && response[1] == 0x4d && response[2] == 0x41 {
                    SessionView::Asking(Question::InitStatus)
                } else {
                    SessionView::Over(SessionFault::Handshake(response))
                },
                Question::InitStatus => next == SessionView::Announcing(TouchEvent::Released),
                Question::SleepCheck => next == if response[0] == 0 {
                    SessionView::Asking(Question::SleepWait)
                } else {
                    refused
                },
                Question::SleepWait => next == if response[0] == 0 {
                    SessionView::Arming
                } else {
                    refused
                },
                Question::Presence => next == if response[0] == 0 {
                    SessionView::Announcing(TouchEvent::Pressed)
                } else {
                    SessionView::Asking(Question::SleepCheck)
                },
                Question::Release => next == if response[0] == 0 {
                    SessionView::Pausing
                } else {
                    SessionView::Announcing(TouchEvent::Released)
                },
            }
        }),
{
    law_answer_gives_back_payload(response);
    let whole = packet(PACKET_ANSWER, response);
    law_answer_ends_itself(whole);
    assert(Seq::<u8>::empty() + whole =~= whole);
    assert(whole.take(whole.len() as int) =~= whole);
}

/// A packet that is no proper answer ends the session, unless it is about how the sensor has
/// started: then what is left of it is read and dropped, and the session goes on with a release.
pub proof fn law_improper_answer_ends_the_session(
    question: Question,
    received: Seq<u8>,
    chunk: Seq<u8>,
    error: ProtocolError,
)
    requires
        packet_end(received + chunk) is Some,
        answer_outcome((received + chunk).take(packet_end(received + chunk)->0)) == Err::<
            Seq<u8>,
            ProtocolError,
        >(error),
    ensures
        ({
            let next = SessionView::Listening(question, received).after(
                DeviceEventView::Chunk(chunk),
            );
            &&& question !is InitStatus ==> next == SessionView::Over(SessionFault::Protocol(error))
            &&& question is InitStatus ==> next is ClearingAnswer
        }),
        SessionView::ClearingAnswer.action() is Drain,
        SessionView::ClearingAnswer.after(DeviceEventView::Done) == SessionView::Announcing(
            TouchEvent::Released,
        ),
{
}

/// Behind a release the interrupt is prepared, switched on, and waited for. The interrupt of a
/// touch is switched off again before the sensor is asked for a finger. Behind a press the sensor
/// is asked, with a pause each time, whether the finger is still there.
pub proof fn law_touches_go_round(event: TouchEvent)
    ensures
        ({
            let done = DeviceEventView::Done;
            let touch = DeviceEventView::Interrupt(seq![0x04u8, 0xe5]);
            &&& SessionView::Announcing(event).action() == DeviceActionView::Emit(event)
            &&& SessionView::Announcing(TouchEvent::Released).after(done) == SessionView::Asking(
                Question::SleepCheck,
            )
            &&& SessionView::Arming.action() == DeviceActionView::SetInterrupt(true)
            &&& SessionView::Arming.after(done) == SessionView::Waiting
            &&& SessionView::Waiting.action() is AwaitInterrupt
            &&& SessionView::Waiting.after(touch) == SessionView::Disarming
            &&& SessionView::Disarming.action() == DeviceActionView::SetInterrupt(false)
            &&& SessionView::Disarming.after(done) == SessionView::Asking(Question::Presence)
            &&& SessionView::Announcing(TouchEvent::Pressed).after(done) == SessionView::Asking(
                Question::Release,
            )
            &&& SessionView::Pausing.action() is Pause
            &&& SessionView::Pausing.after(done) == SessionView::Asking(Question::Release)
        }),
{
}

/// The wait for a touch ends with the two bytes of a touch and with no others.
pub proof fn law_other_interrupts_are_ignored(bytes: Seq<u8>)
    ensures
        SessionView::Waiting.after(DeviceEventView::Interrupt(bytes)) is Disarming <==> bytes.len()
            == 2 && bytes[0] == 0x04 && bytes[1] == 0xe5,
        !(bytes.len() == 2 && bytes[0] == 0x04 && bytes[1] == 0xe5) ==> SessionView::Waiting.after(
            DeviceEventView::Interrupt(bytes),
        ) is Waiting,
        SessionView::Waiting.after(DeviceEventView::Quiet) is Waiting,
{
    if bytes.len() == 2 && bytes[0] == 0x04 && bytes[1] == 0xe5 {
        assert(bytes =~= touch_interrupt());
    } else if bytes == touch_interrupt() {
        assert(touch_interrupt()[0] == 0x04 && touch_interrupt()[1] == 0xe5);
    }
}

/// A step that fails ends the session with a fault that names it. Only a question how the sensor
/// has started may stay without an answer, and what is read to be dropped may fail to come.
pub proof fn law_failed_step_ends_the_session(
    session: SessionView,
    question: Question,
    received: Seq<u8>,
)
    ensures
        ({
            let failed = DeviceEventView::Failed;
            let command: u8 = match question {
                Question::Handshake => 0x35,
                Question::InitStatus => 0x88,
                Question::SleepCheck => 0x33,
                Question::SleepWait => 0x33,
                Question::Presence => 0x01,
                Question::Release => 0x01,
            };
            &&& session matches SessionView::Opening { vid, pid } ==> session.after(failed)
                == SessionView::Over(SessionFault::NotFound { vid, pid })
            &&& SessionView::Resetting.after(failed) == SessionView::Over(SessionFault::Reset)
            &&& SessionView::Claiming.after(failed) == SessionView::Over(SessionFault::Claim)
            &&& question is InitStatus ==> SessionView::Asking(question).after(
                failed,
            ) is ClearingAnswer && SessionView::Listening(question, received).after(
                failed,
            ) is ClearingAnswer
            &&& question !is InitStatus ==> SessionView::Asking(question).after(failed)
                == SessionView::Over(SessionFault::Write { command }) && SessionView::Listening(
                question,
                received,
            ).after(failed) == SessionView::Over(SessionFault::Read { command })
            &&& session is Announcing ==> session.after(failed) == SessionView::Over(
                SessionFault::ReceiverClosed,
            )
            &&& SessionView::Arming.after(failed) == SessionView::Over(
                SessionFault::SetInterrupt { enabled: true },
            )
            &&& SessionView::Waiting.after(failed) == SessionView::Over(SessionFault::Interrupt)
            &&& SessionView::Disarming.after(failed) == SessionView::Over(
                SessionFault::SetInterrupt { enabled: false },
            )
            &&& session is Over ==> session.action() is Stop
        }),
{
}

/// What does not answer the action of a session changes nothing.
pub proof fn law_stray_events_change_nothing(session: SessionView, event: DeviceEventView)
    ensures
        event is Written && session !is Asking ==> session.after(event) == session,
        event is Chunk && session !is Listening ==> session.after(event) == session,
        event is Interrupt && session !is Waiting ==> session.after(event) == session,
        event is Quiet ==> session.after(event) == session,
        event is Done && (session is Asking || session is Listening || session is Waiting)
            ==> session.after(event) == session,
        event is Failed && (session is Clearing || session is ClearingAnswer || session is Pausing)
            ==> session.after(event) == session,
{
}

/// Bytes are written in hexadecimal one behind the other, with a comma and a space between each
/// two.
pub proof fn law_bytes_are_written_in_turn(bytes: Seq<u8>, byte: u8)
    ensures
        hex_bytes_text(Seq::empty()) == Seq::<char>::empty(),
        hex_bytes_text(seq![byte]) == hex_byte_text(byte),
        bytes.len() > 0 ==> hex_bytes_text(bytes.push(byte)) == hex_bytes_text(bytes) + ", "@
            + hex_byte_text(byte),
{
    assert(bytes.push(byte).drop_last() =~= bytes);
}

/// Each fault is told by a message of its own, with the numbers that belong to it.
pub proof fn law_session_faults_are_told(
    vid: u16,
    pid: u16,
    command: u8,
    response: Seq<u8>,
    error: ProtocolError,
)
    ensures
        session_fault_text(SessionFault::NotFound { vid, pid }) == "USB fingerprint sensor "@
            + hex_word_text(vid) + ":"@ + hex_word_text(pid) + " not found"@,
        session_fault_text(SessionFault::Reset) == "failed to reset fingerprint sensor"@,
        session_fault_text(SessionFault::Claim) == "failed to claim fingerprint sensor interface"@,
        session_fault_text(SessionFault::Write { command })
            == "failed to send fingerprint command 0x"@ + hex_byte_text(command),
        session_fault_text(SessionFault::Read { command })
            == "failed to read fingerprint command 0x"@ + hex_byte_text(command),
        session_fault_text(SessionFault::Interrupt)
            == "failed to read fingerprint touch interrupt"@,
        session_fault_text(SessionFault::SetInterrupt { enabled: true })
            == "failed to enable fingerprint touch interrupt"@,
        session_fault_text(SessionFault::SetInterrupt { enabled: false })
            == "failed to disable fingerprint touch interrupt"@,
        session_fault_text(SessionFault::ReceiverClosed) == "fingerprint touch receiver closed"@,
        session_fault_text(SessionFault::Handshake(response))
            == "unexpected fingerprint handshake response: ["@ + hex_bytes_text(response) + "]"@,
        session_fault_text(SessionFault::Protocol(error)) == protocol_fault_text(error),
{
}

/// An action, an event, a session and an error are known by their own numbers and bytes.
pub proof fn law_steps_are_known_by_their_bytes(
    action: DeviceAction,
    event: DeviceEvent,
    session: TouchSession,
    error: SessionError,
)
    ensures
        match action {
            DeviceAction::Open { vid, pid } => action@ == (DeviceActionView::Open { vid, pid }),
            DeviceAction::Reset => action@ is Reset,
            DeviceAction::Claim => action@ is Claim,
            DeviceAction::Drain => action@ is Drain,
            DeviceAction::Write(bytes) => action@ == DeviceActionView::Write(bytes@),
            DeviceAction::Read => action@ is Read,
            DeviceAction::SetInterrupt(enabled) => action@ == DeviceActionView::SetInterrupt(
                enabled,
            ),
            DeviceAction::AwaitInterrupt => action@ is AwaitInterrupt,
            DeviceAction::Emit(touch) => action@ == DeviceActionView::Emit(touch),
            DeviceAction::Pause => action@ is Pause,
            DeviceAction::Stop => action@ is Stop,
        },
        match event {
            DeviceEvent::Done => event@ is Done,
            DeviceEvent::Failed => event@ is Failed,
            DeviceEvent::Written(count) => event@ == DeviceEventView::Written(count),
            DeviceEvent::Chunk(bytes) => event@ == DeviceEventView::Chunk(bytes@),
            DeviceEvent::Interrupt(bytes) => event@ == DeviceEventView::Interrupt(bytes@),
            DeviceEvent::Quiet => event@ is Quiet,
        },
        match session {
            TouchSession::Opening { vid, pid } => session@ == (SessionView::Opening { vid, pid }),
            TouchSession::Resetting => session@ is Resetting,
            TouchSession::Claiming => session@ is Claiming,
            TouchSession::Clearing => session@ is Clearing,
            TouchSession::Asking(question) => session@ == SessionView::Asking(question),
            TouchSession::Listening(question, received) => session@ == SessionView::Listening(
                question,
                received@,
            ),
            TouchSession::ClearingAnswer => session@ is ClearingAnswer,
            TouchSession::Announcing(touch) => session@ == SessionView::Announcing(touch),
            TouchSession::Arming => session@ is Arming,
            TouchSession::Waiting => session@ is Waiting,
            TouchSession::Disarming => session@ is Disarming,
            TouchSession::Pausing => session@ is Pausing,
            TouchSession::Over(error) => session@ == SessionView::Over(error@),
        },
        match error {
            SessionError::NotFound { vid, pid } => error@ == (SessionFault::NotFound { vid, pid }),
            SessionError::Reset => error@ is Reset,
            SessionError::Claim => error@ is Claim,
            SessionError::Write { command } => error@ == (SessionFault::Write { command }),
            SessionError::Read { command } => error@ == (SessionFault::Read { command }),
            SessionError::Interrupt => error@ is Interrupt,
            SessionError::SetInterrupt { enabled } => error@ == (SessionFault::SetInterrupt {
                enabled,
            }),
            SessionError::ReceiverClosed => error@ is ReceiverClosed,
            SessionError::Handshake(response) => error@ == SessionFault::Handshake(response@),
            SessionError::Protocol(fault) => error@ == SessionFault::Protocol(fault),
        },
{
}

} // verus!
