use gem12_display::fingerprint::{build_command, checksum, ProtocolError, TouchEvent};
use gem12_display::touch_session::{
    DeviceAction, DeviceEvent, Question, SessionError, TouchSession,
};

fn answer(payload: &[u8]) -> DeviceEvent {
    let mut packet = vec![0xef, 0x01, 0xff, 0xff, 0xff, 0xff, 0x07];
    packet.extend_from_slice(&((payload.len() + 2) as u16).to_be_bytes());
    packet.extend_from_slice(payload);
    let sum = checksum(&packet);
    packet.extend_from_slice(&sum.to_be_bytes());
    DeviceEvent::Chunk(packet)
}

/// Sends the question that the session asks for and answers it.
fn exchange(session: TouchSession, command: u8, data: &[u8], payload: &[u8]) -> TouchSession {
    let packet = build_command(command, data).unwrap();
    assert_eq!(session.action(), DeviceAction::Write(packet.clone()));
    let session = session.advance(DeviceEvent::Written(packet.len()));
    assert_eq!(session.action(), DeviceAction::Read);
    session.advance(answer(payload))
}

fn done(session: TouchSession, action: DeviceAction) -> TouchSession {
    assert_eq!(session.action(), action);
    session.advance(DeviceEvent::Done)
}

fn ready() -> TouchSession {
    let session = TouchSession::new(0x3274, 0x8012);
    let session = done(
        session,
        DeviceAction::Open {
            vid: 0x3274,
            pid: 0x8012,
        },
    );
    let session = done(session, DeviceAction::Reset);
    let session = done(session, DeviceAction::Claim);
    let session = done(session, DeviceAction::Drain);
    let session = exchange(session, 0x35, &[], &[0, b'M', b'A']);
    let session = exchange(session, 0x88, &[], &[0]);
    done(session, DeviceAction::Emit(TouchEvent::Released))
}

fn waiting(session: TouchSession) -> TouchSession {
    let session = exchange(session, 0x33, &[1], &[0]);
    let session = exchange(session, 0x33, &[0], &[0]);
    let session = done(session, DeviceAction::SetInterrupt(true));
    assert_eq!(session.action(), DeviceAction::AwaitInterrupt);
    session
}

fn touched(session: TouchSession) -> TouchSession {
    let session = waiting(session);
    let session = session.advance(DeviceEvent::Interrupt(vec![0x04, 0xe5]));
    done(session, DeviceAction::SetInterrupt(false))
}

#[test]
fn reports_a_touch_from_press_to_release() {
    let session = touched(ready());
    let session = exchange(session, 0x01, &[], &[0]);
    let session = done(session, DeviceAction::Emit(TouchEvent::Pressed));
    let session = exchange(session, 0x01, &[], &[0]);
    let session = done(session, DeviceAction::Pause);
    let session = exchange(session, 0x01, &[], &[2]);
    let session = done(session, DeviceAction::Emit(TouchEvent::Released));
    assert_eq!(session, TouchSession::Asking(Question::SleepCheck));
}

#[test]
fn touch_without_finger_is_not_reported() {
    let session = exchange(touched(ready()), 0x01, &[], &[2]);
    assert_eq!(session, TouchSession::Asking(Question::SleepCheck));
    let session = exchange(touched(ready()), 0x01, &[], &[0x55]);
    assert_eq!(session, TouchSession::Asking(Question::SleepCheck));
}

#[test]
fn other_interrupts_and_silence_are_ignored() {
    let mut session = waiting(ready());
    for event in [
        DeviceEvent::Quiet,
        DeviceEvent::Interrupt(vec![0x04]),
        DeviceEvent::Interrupt(vec![0x04, 0xe4]),
        DeviceEvent::Interrupt(vec![]),
        DeviceEvent::Interrupt(vec![0x04, 0xe5, 0]),
    ] {
        session = session.advance(event);
        assert_eq!(session, TouchSession::Waiting);
    }
    assert_eq!(
        session.advance(DeviceEvent::Failed),
        TouchSession::Over(SessionError::Interrupt)
    );
}

#[test]
fn init_status_may_go_unanswered() {
    let asking = || TouchSession::Asking(Question::InitStatus);
    for session in [
        asking().advance(DeviceEvent::Failed),
        asking().advance(DeviceEvent::Written(3)),
        asking()
            .advance(DeviceEvent::Written(12))
            .advance(DeviceEvent::Failed),
        asking()
            .advance(DeviceEvent::Written(12))
            .advance(DeviceEvent::Chunk(vec![0; 9])),
    ] {
        assert_eq!(session, TouchSession::ClearingAnswer);
        let session = done(session, DeviceAction::Drain);
        assert_eq!(session, TouchSession::Announcing(TouchEvent::Released));
    }
}

#[test]
fn strange_handshake_ends_the_session() {
    let session = exchange(
        TouchSession::Asking(Question::Handshake),
        0x35,
        &[],
        &[0, b'M', b'B'],
    );
    match &session {
        TouchSession::Over(error) => assert_eq!(
            error.message(),
            "unexpected fingerprint handshake response: [00, 4d, 42]"
        ),
        other => panic!("{other:?}"),
    }
    assert_eq!(session.action(), DeviceAction::Stop);
    let session = session.advance(DeviceEvent::Done);
    assert_eq!(session.action(), DeviceAction::Stop);
    let short = exchange(TouchSession::Asking(Question::Handshake), 0x35, &[], &[0]);
    match short {
        TouchSession::Over(error) => assert_eq!(
            error.message(),
            "unexpected fingerprint handshake response: [00]"
        ),
        other => panic!("{other:?}"),
    }
}

#[test]
fn failures_end_the_session_with_a_message() {
    let failures = [
        (
            TouchSession::new(0x3274, 0x0012),
            "USB fingerprint sensor 3274:0012 not found",
        ),
        (
            TouchSession::Resetting,
            "failed to reset fingerprint sensor",
        ),
        (
            TouchSession::Claiming,
            "failed to claim fingerprint sensor interface",
        ),
        (
            TouchSession::Asking(Question::Handshake),
            "failed to send fingerprint command 0x35",
        ),
        (
            TouchSession::Listening(Question::Release, vec![]),
            "failed to read fingerprint command 0x01",
        ),
        (
            TouchSession::Announcing(TouchEvent::Pressed),
            "fingerprint touch receiver closed",
        ),
        (
            TouchSession::Arming,
            "failed to enable fingerprint touch interrupt",
        ),
        (
            TouchSession::Waiting,
            "failed to read fingerprint touch interrupt",
        ),
        (
            TouchSession::Disarming,
            "failed to disable fingerprint touch interrupt",
        ),
    ];
    for (session, message) in failures {
        match session.advance(DeviceEvent::Failed) {
            TouchSession::Over(error) => assert_eq!(error.message(), message),
            other => panic!("{other:?}"),
        }
    }
}

#[test]
fn refused_commands_end_the_session() {
    let refused = exchange(TouchSession::Asking(Question::SleepWait), 0x33, &[0], &[9]);
    assert_eq!(
        refused,
        TouchSession::Over(SessionError::Protocol(ProtocolError::CommandFailed {
            command: 0x33,
            result: 9
        }))
    );
    let short = TouchSession::Asking(Question::Presence).advance(DeviceEvent::Written(11));
    assert_eq!(
        short,
        TouchSession::Over(SessionError::Protocol(ProtocolError::ShortWrite {
            written: 11,
            length: 12
        }))
    );
    match short {
        TouchSession::Over(error) => assert_eq!(
            error.message(),
            "short fingerprint command write: 11/12 bytes"
        ),
        other => panic!("{other:?}"),
    }
}

#[test]
fn answers_come_in_parts() {
    let listening = TouchSession::Listening(Question::Presence, vec![]);
    let DeviceEvent::Chunk(packet) = answer(&[2]) else {
        unreachable!()
    };
    let session = listening.advance(DeviceEvent::Chunk(packet[..5].to_vec()));
    assert_eq!(
        session,
        TouchSession::Listening(Question::Presence, packet[..5].to_vec())
    );
    let session = session.advance(DeviceEvent::Chunk(packet[5..].to_vec()));
    assert_eq!(session, TouchSession::Asking(Question::SleepCheck));
}

#[test]
fn events_alternate_over_many_touches() {
    let mut session = ready();
    let mut emitted = vec![TouchEvent::Released];
    for _ in 0..5 {
        session = exchange(touched(session), 0x01, &[], &[0]);
        if let DeviceAction::Emit(event) = session.action() {
            emitted.push(event);
        }
        session = session.advance(DeviceEvent::Done);
        session = exchange(session, 0x01, &[], &[2]);
        if let DeviceAction::Emit(event) = session.action() {
            emitted.push(event);
        }
        session = session.advance(DeviceEvent::Done);
    }
    assert_eq!(emitted.len(), 11);
    for (place, event) in emitted.iter().enumerate() {
        let expected = if place % 2 == 0 {
            TouchEvent::Released
        } else {
            TouchEvent::Pressed
        };
        assert_eq!(*event, expected);
    }
}

#[test]
fn unfitting_events_change_nothing() {
    let session = TouchSession::Resetting.advance(DeviceEvent::Written(12));
    assert_eq!(session, TouchSession::Resetting);
    let session = TouchSession::Waiting.advance(DeviceEvent::Done);
    assert_eq!(session, TouchSession::Waiting);
    let session = TouchSession::Clearing.advance(DeviceEvent::Failed);
    assert_eq!(session, TouchSession::Clearing);
}
