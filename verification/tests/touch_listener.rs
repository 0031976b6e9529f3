use gem12_display::fingerprint::{checksum, TimedTouchEvent, TouchEvent};
use gem12_display::time::{Duration, Instant};
use gem12_display::touch_listener::{ListenerAction, ListenerEvent, TouchListener};
use gem12_display::touch_session::{DeviceAction, DeviceEvent, SessionError, TouchSession};

fn answer(payload: &[u8]) -> DeviceEvent {
    let mut packet = vec![0xef, 0x01, 0xff, 0xff, 0xff, 0xff, 0x07];
    packet.extend_from_slice(&((payload.len() + 2) as u16).to_be_bytes());
    packet.extend_from_slice(payload);
    let sum = checksum(&packet);
    packet.extend_from_slice(&sum.to_be_bytes());
    DeviceEvent::Chunk(packet)
}

/// A sensor under a finger that comes and goes, which fails after a number of steps.
struct Bench {
    steps: u64,
    fails_at: u64,
    command: u8,
    finger: bool,
}

impl Bench {
    fn perform(&mut self, action: DeviceAction) -> DeviceEvent {
        self.steps += 1;
        if self.steps >= self.fails_at && action != DeviceAction::Drain {
            return DeviceEvent::Failed;
        }
        match action {
            DeviceAction::Write(packet) => {
                self.command = packet[9];
                DeviceEvent::Written(packet.len())
            }
            DeviceAction::Read => match self.command {
                0x35 => answer(&[0, b'M', b'A']),
                0x01 => {
                    self.finger = !self.finger;
                    answer(&[if self.finger { 0 } else { 2 }])
                }
                _ => answer(&[0]),
            },
            DeviceAction::AwaitInterrupt => DeviceEvent::Interrupt(vec![0x04, 0xe5]),
            _ => DeviceEvent::Done,
        }
    }
}

fn run(fails_at: u64, fails_again: u64, rounds: usize) -> (Vec<TimedTouchEvent>, usize) {
    let mut bench = Bench {
        steps: 0,
        fails_at,
        command: 0,
        finger: false,
    };
    let mut listener = TouchListener::new(0x3274, 0x8012);
    let mut emitted = Vec::new();
    let mut rests = 0;
    let mut nanos = 0;
    for _ in 0..rounds {
        nanos += 7;
        let event = match listener.action() {
            ListenerAction::Device(action) => ListenerEvent::Device(bench.perform(action)),
            ListenerAction::ReadClock => ListenerEvent::Time(Instant::from_nanos(nanos)),
            ListenerAction::Emit(touch) => {
                emitted.push(touch);
                ListenerEvent::Device(DeviceEvent::Done)
            }
            ListenerAction::Rest(span) => {
                assert_eq!(span, Duration::from_secs(2));
                rests += 1;
                bench.finger = false;
                bench.fails_at = bench.steps + fails_again;
                ListenerEvent::Rested
            }
        };
        listener = listener.advance(event);
    }
    (emitted, rests)
}

#[test]
fn stream_is_in_order_over_reconnects() {
    for fails_at in 1..60 {
        let (emitted, rests) = run(fails_at, fails_at + 3, 600);
        assert!(rests > 0, "{fails_at}");
        if let Some(first) = emitted.first() {
            assert_eq!(first.event, TouchEvent::Released);
        }
        for pair in emitted.windows(2) {
            assert!(
                !(pair[0].event == TouchEvent::Pressed && pair[1].event == TouchEvent::Pressed),
                "{fails_at}"
            );
            assert!(pair[0].at.nanos < pair[1].at.nanos);
        }
    }
    let (emitted, _) = run(45, 45, 600);
    assert!(emitted.iter().any(|touch| touch.event == TouchEvent::Pressed));
}

#[test]
fn lost_device_is_tried_again() {
    let listener = TouchListener::new(0x3274, 0x8012);
    let open = || {
        ListenerAction::Device(DeviceAction::Open {
            vid: 0x3274,
            pid: 0x8012,
        })
    };
    assert_eq!(listener.action(), open());
    let listener = listener.advance(ListenerEvent::Device(DeviceEvent::Failed));
    assert_eq!(
        listener.session(),
        &TouchSession::Over(SessionError::NotFound {
            vid: 0x3274,
            pid: 0x8012
        })
    );
    assert_eq!(
        listener.action(),
        ListenerAction::Rest(Duration::from_secs(2))
    );
    let listener = listener.advance(ListenerEvent::Device(DeviceEvent::Done));
    let listener = listener.advance(ListenerEvent::Rested);
    assert_eq!(listener.action(), open());
}

#[test]
fn event_keeps_the_time_of_the_edge() {
    let mut bench = Bench {
        steps: 0,
        fails_at: u64::MAX,
        command: 0,
        finger: false,
    };
    let mut listener = TouchListener::new(1, 2);
    while let ListenerAction::Device(action) = listener.action() {
        listener = listener.advance(ListenerEvent::Device(bench.perform(action)));
    }
    assert_eq!(listener.action(), ListenerAction::ReadClock);
    // Nothing is handed on before the time is known.
    listener = listener.advance(ListenerEvent::Device(DeviceEvent::Done));
    assert_eq!(listener.action(), ListenerAction::ReadClock);
    listener = listener.advance(ListenerEvent::Time(Instant::from_nanos(5)));
    listener = listener.advance(ListenerEvent::Time(Instant::from_nanos(9)));
    listener = listener.advance(ListenerEvent::Rested);
    assert_eq!(
        listener.action(),
        ListenerAction::Emit(TimedTouchEvent {
            event: TouchEvent::Released,
            at: Instant::from_nanos(5)
        })
    );
    listener = listener.advance(ListenerEvent::Device(DeviceEvent::Failed));
    assert_eq!(
        listener.session(),
        &TouchSession::Over(SessionError::ReceiverClosed)
    );
}
