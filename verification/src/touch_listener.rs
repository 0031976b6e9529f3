//! A listener for touch events: sessions with the fingerprint sensor, one after the other.
//!
//! When a session has ended, the listener rests for a while and starts the next one. Every touch event
//! gets the time at which it was noticed, before it is handed on.

use crate::fingerprint::{TimedTouchEvent, TouchEvent};
use crate::time::{Duration, Instant};
use crate::touch_session::{
    lemma_due_after, DeviceAction, DeviceActionView, DeviceEvent, DeviceEventView, SessionView,
    TouchSession,
};
use vstd::prelude::*;

verus! {

/// How long the listener rests between two sessions, in nanoseconds.
pub const RETRY_NANOS: u128 = 2_000_000_000;

// ---------------------------------------------------------------------------------------------
// Steps
// ---------------------------------------------------------------------------------------------
/// What a listener asks for.
#[derive(Debug, PartialEq, Eq)]
pub enum ListenerAction {
    /// A step with the device.
    Device(DeviceAction),
    /// Tell the time: a touch event was noticed.
    ReadClock,
    /// Hand a touch event on.
    Emit(TimedTouchEvent),
    /// Wait before the next session.
    Rest(Duration),
}

/// An action by its bytes.
pub enum ListenerActionView {
    Device(DeviceActionView),
    ReadClock,
    Emit(TimedTouchEvent),
    Rest(Duration),
}

impl View for ListenerAction {
    type V = ListenerActionView;

    open spec fn view(&self) -> ListenerActionView {
        match *self {
            ListenerAction::Device(action) => ListenerActionView::Device(action@),
            ListenerAction::ReadClock => ListenerActionView::ReadClock,
            ListenerAction::Emit(touch) => ListenerActionView::Emit(touch),
            ListenerAction::Rest(span) => ListenerActionView::Rest(span),
        }
    }
}

/// What came of an action.
#[derive(Debug, PartialEq, Eq)]
pub enum ListenerEvent {
    /// What came of a step with the device, or of handing a touch event on.
    Device(DeviceEvent),
    Time(Instant),
    Rested,
}

/// An event by its bytes.
pub enum ListenerEventView {
    Device(DeviceEventView),
    Time(Instant),
    Rested,
}

impl View for ListenerEvent {
    type V = ListenerEventView;

    open spec fn view(&self) -> ListenerEventView {
        match *self {
            ListenerEvent::Device(event) => ListenerEventView::Device(event@),
            ListenerEvent::Time(now) => ListenerEventView::Time(now),
            ListenerEvent::Rested => ListenerEventView::Rested,
        }
    }
}

/// A listener for the touch events of a sensor.
pub struct TouchListener {
    vid: u16,
    pid: u16,
    session: TouchSession,
    noticed: Option<Instant>,
}

/// A [`TouchListener`].
pub struct ListenerView {
    pub vid: u16,
    pub pid: u16,
    /// The session that is on, or the last one.
    pub session: SessionView,
    /// When the touch event was noticed that is being handed on.
    pub noticed: Option<Instant>,
}

impl View for TouchListener {
    type V = ListenerView;

    closed spec fn view(&self) -> ListenerView {
        ListenerView {
            vid: self.vid,
            pid: self.pid,
            session: self.session@,
            noticed: self.noticed,
        }
    }
}

// ---------------------------------------------------------------------------------------------
// Model
// ---------------------------------------------------------------------------------------------
/// A listener for the sensor with these numbers, before its first session.
pub open spec fn first_listener(vid: u16, pid: u16) -> ListenerView {
    ListenerView { vid, pid, session: SessionView::Opening { vid, pid }, noticed: None }
}

impl ListenerView {
    /// What the listener asks for.
    pub open spec fn action(self) -> ListenerActionView {
        match (self.session, self.noticed) {
            (SessionView::Over(_), _) => ListenerActionView::Rest(Duration { nanos: RETRY_NANOS }),
            (SessionView::Announcing(_), None) => ListenerActionView::ReadClock,
            (SessionView::Announcing(event), Some(at)) => ListenerActionView::Emit(
                TimedTouchEvent { event, at },
            ),
            _ => ListenerActionView::Device(self.session.action()),
        }
    }

    /// What follows when a step with the device, or handing an event on, has come to an end. A
    /// touch event that has no time yet is not handed on.
    pub open spec fn after_device(self, event: DeviceEventView) -> ListenerView {
        if self.session is Announcing && self.noticed is None {
            self
        } else {
            ListenerView {
                session: self.session.after(event),
                noticed: if event is Done || event is Failed {
                    None
                } else {
                    self.noticed
                },
                ..self
            }
        }
    }

    /// What follows an event. One that is no answer to the action changes nothing.
    pub open spec fn after(self, event: ListenerEventView) -> ListenerView {
        match event {
            ListenerEventView::Device(event) => self.after_device(event),
            ListenerEventView::Time(now) => if self.session is Announcing && self.noticed is None {
                ListenerView { noticed: Some(now), ..self }
            } else {
                self
            },
            ListenerEventView::Rested => if self.session is Over {
                first_listener(self.vid, self.pid)
            } else {
                self
            },
        }
    }

    /// What follows several events.
    pub open spec fn after_all(self, events: Seq<ListenerEventView>) -> ListenerView
        decreases events.len(),
    {
        if events.len() == 0 {
            self
        } else {
            self.after_all(events.drop_last()).after(events.last())
        }
    }

    /// The touch events that have been handed on in the course of several events, over all
    /// sessions.
    pub open spec fn emitted(self, events: Seq<ListenerEventView>) -> Seq<TimedTouchEvent>
        decreases events.len(),
    {
        if events.len() == 0 {
            Seq::empty()
        } else {
            let before = self.emitted(events.drop_last());
            match (self.after_all(events.drop_last()).action(), events.last()) {
                (
                    ListenerActionView::Emit(touch),
                    ListenerEventView::Device(DeviceEventView::Done),
                ) => before.push(touch),
                _ => before,
            }
        }
    }
}

// ---------------------------------------------------------------------------------------------
// Listener
// ---------------------------------------------------------------------------------------------
impl TouchListener {
    /// A listener for the sensor with these numbers.
    pub fn new(vid: u16, pid: u16) -> (listener: TouchListener)
        ensures
            listener@ == first_listener(vid, pid),
    {
        TouchListener { vid, pid, session: TouchSession::new(vid, pid), noticed: None }
    }

    /// The session that is on, or the last one.
    pub fn session(&self) -> (session: &TouchSession)
        ensures
            session@ == self@.session,
    {
        &self.session
    }

    /// What the listener asks for.
    pub fn action(&self) -> (action: ListenerAction)
        ensures
            action@ == self@.action(),
    {
        match &self.session {
            TouchSession::Over(_) => ListenerAction::Rest(Duration { nanos: RETRY_NANOS }),
            TouchSession::Announcing(event) => match self.noticed {
                None => ListenerAction::ReadClock,
                Some(at) => ListenerAction::Emit(TimedTouchEvent { event: *event, at }),
            },
            _ => ListenerAction::Device(self.session.action()),
        }
    }

    fn is_announcing(&self) -> (announcing: bool)
        ensures
            announcing == (self@.session is Announcing),
    {
        match &self.session {
            TouchSession::Announcing(_) => true,
            _ => false,
        }
    }

    /// The listener after an event.
    pub fn advance(self, event: ListenerEvent) -> (listener: TouchListener)
        ensures
            listener@ == self@.after(event@),
    {
        let unnoticed = self.is_announcing() && self.noticed.is_none();
        match event {
            ListenerEvent::Device(event) => {
                if unnoticed {
                    return self;
                }
                let noticed = match &event {
                    DeviceEvent::Done => None,
                    DeviceEvent::Failed => None,
                    _ => self.noticed,
                };
                TouchListener { session: self.session.advance(event), noticed, ..self }
            },
            ListenerEvent::Time(now) => {
                if unnoticed {
                    TouchListener { noticed: Some(now), ..self }
                } else {
                    self
                }
            },
            ListenerEvent::Rested => match &self.session {
                TouchSession::Over(_) => TouchListener::new(self.vid, self.pid),
                _ => self,
            },
        }
    }
}

// ---------------------------------------------------------------------------------------------
// Laws
// ---------------------------------------------------------------------------------------------
/// What an event makes of the touch event that is due.
proof fn lemma_due_after_event(listener: ListenerView, event: ListenerEventView)
    ensures
        ({
            let after = listener.after(event).session;
            let sent = listener.action() is Emit && event == ListenerEventView::Device(
                DeviceEventView::Done,
            );
            &&& sent ==> listener.session == SessionView::Announcing(
                listener.action()->Emit_0.event,
            )
            &&& sent ==> listener.session.due() == listener.action()->Emit_0.event
            &&& sent && after !is Over ==> after.due() != listener.session.due()
            &&& !sent && after !is Over ==> if listener.session is Over {
                after.due() == TouchEvent::Released
            } else {
                after.due() == listener.session.due()
            }
        }),
{
    if let ListenerEventView::Device(device) = event {
        lemma_due_after(listener.session, device);
    }
}

proof fn lemma_stream_order(vid: u16, pid: u16, events: Seq<ListenerEventView>)
    ensures
        ({
            let emitted = first_listener(vid, pid).emitted(events);
            let now = first_listener(vid, pid).after_all(events);
            &&& emitted.len() > 0 ==> emitted[0].event == TouchEvent::Released
            &&& forall|i: int|
                #![trigger emitted[i]]
                0 < i < emitted.len() ==> !(emitted[i - 1].event == TouchEvent::Pressed
                    && emitted[i].event == TouchEvent::Pressed)
            &&& emitted.len() == 0 || emitted.last().event == TouchEvent::Pressed
                ==> now.session is Over || now.session.due() == TouchEvent::Released
        }),
    decreases events.len(),
{
    if events.len() > 0 {
        let start = first_listener(vid, pid);
        let before = start.after_all(events.drop_last());
        lemma_stream_order(vid, pid, events.drop_last());
        lemma_due_after_event(before, events.last());
        let sent = start.emitted(events.drop_last());
        let emitted = start.emitted(events);
        assert(start.after_all(events) == before.after(events.last()));
        assert(emitted == sent || (before.action() is Emit && emitted == sent.push(
            before.action()->Emit_0,
        )));
    }
}

/// The stream of touch events begins with a release, and no press follows a press: not within a
/// session and not from one session to the next, wherever the device fails and the listener starts
/// anew.
pub proof fn law_stream_begins_with_release(vid: u16, pid: u16, events: Seq<ListenerEventView>)
    ensures
        ({
            let emitted = first_listener(vid, pid).emitted(events);
            &&& emitted.len() > 0 ==> emitted[0].event == TouchEvent::Released
            &&& forall|i: int|
                #![trigger emitted[i]]
                0 < i < emitted.len() ==> !(emitted[i - 1].event == TouchEvent::Pressed
                    && emitted[i].event == TouchEvent::Pressed)
        }),
{
    lemma_stream_order(vid, pid, events);
}

/// Whether the clock never goes back from one reading to a later one.
pub open spec fn clock_goes_on(events: Seq<ListenerEventView>) -> bool {
    forall|i: int, j: int|
        0 <= i < j < events.len() ==> match (#[trigger] events[i], #[trigger] events[j]) {
            (ListenerEventView::Time(earlier), ListenerEventView::Time(later)) => earlier.nanos
                <= later.nanos,
            _ => true,
        }
}

/// Whether a time was read from the clock within the first `count` events.
spec fn was_read(time: Instant, events: Seq<ListenerEventView>, count: int) -> bool {
    exists|i: int|
        0 <= i < count && i < events.len() && #[trigger] events[i] == ListenerEventView::Time(time)
}

proof fn lemma_stream_times(vid: u16, pid: u16, events: Seq<ListenerEventView>, count: int)
    requires
        clock_goes_on(events),
        0 <= count <= events.len(),
    ensures
        ({
            let emitted = first_listener(vid, pid).emitted(events.take(count));
            let now = first_listener(vid, pid).after_all(events.take(count));
            &&& forall|i: int|
                0 <= i < emitted.len() ==> was_read((#[trigger] emitted[i]).at, events, count)
            &&& forall|i: int, j: int|
                0 <= i < j < emitted.len() ==> (#[trigger] emitted[i]).at.nanos <= (
                #[trigger] emitted[j]).at.nanos
            &&& now.noticed matches Some(at) ==> was_read(at, events, count) && forall|i: int|
                0 <= i < emitted.len() ==> (#[trigger] emitted[i]).at.nanos <= at.nanos
        }),
    decreases count,
{
    let start = first_listener(vid, pid);
    if count == 0 {
        assert(events.take(0) =~= Seq::<ListenerEventView>::empty());
    } else {
        lemma_stream_times(vid, pid, events, count - 1);
        let taken = events.take(count);
        assert(taken.drop_last() =~= events.take(count - 1));
        assert(taken.last() == events[count - 1]);
        let old_emitted = start.emitted(events.take(count - 1));
        let emitted = start.emitted(taken);
        let before = start.after_all(events.take(count - 1));
        assert forall|time: Instant| was_read(time, events, count - 1) implies #[trigger] was_read(
            time,
            events,
            count,
        ) by {
            let i = choose|i: int|
                0 <= i < count - 1 && i < events.len() && #[trigger] events[i]
                    == ListenerEventView::Time(time);
            assert(events[i] == ListenerEventView::Time(time));
        }
        if let ListenerEventView::Time(reading) = events[count - 1] {
            assert(was_read(reading, events, count));
            assert forall|i: int| 0 <= i < emitted.len() implies (#[trigger] emitted[i]).at.nanos
                <= reading.nanos by {
                assert(was_read(old_emitted[i].at, events, count - 1));
                let k = choose|k: int|
                    0 <= k < count - 1 && k < events.len() && #[trigger] events[k]
                        == ListenerEventView::Time(old_emitted[i].at);
                assert(events[k] == ListenerEventView::Time(old_emitted[i].at));
            }
        }
    }
}

/// The time of a touch event is a reading of the clock from before it was handed on, and as long as
/// the clock does not go back, the times in the stream do not either, over all sessions.
pub proof fn law_stream_times_go_on(vid: u16, pid: u16, events: Seq<ListenerEventView>)
    requires
        clock_goes_on(events),
    ensures
        ({
            let emitted = first_listener(vid, pid).emitted(events);
            &&& forall|i: int|
                0 <= i < emitted.len() ==> events.contains(
                    ListenerEventView::Time((#[trigger] emitted[i]).at),
                )
            &&& forall|i: int, j: int|
                0 <= i < j < emitted.len() ==> (#[trigger] emitted[i]).at.nanos <= (
                #[trigger] emitted[j]).at.nanos
        }),
{
    lemma_stream_times(vid, pid, events, events.len() as int);
    assert(events.take(events.len() as int) =~= events);
    let emitted = first_listener(vid, pid).emitted(events);
    assert forall|i: int| 0 <= i < emitted.len() implies events.contains(
        ListenerEventView::Time((#[trigger] emitted[i]).at),
    ) by {
        assert(was_read(emitted[i].at, events, events.len() as int));
    }
}

/// The time of a touch event is read when the event is noticed: as soon as a session has one to
/// hand on, the listener asks for the time, and the event goes out with that reading, however long
/// that takes.
pub proof fn law_time_is_that_of_the_edge(
    listener: ListenerView,
    event: TouchEvent,
    at: Instant,
    others: Seq<ListenerEventView>,
)
    requires
        listener.session == SessionView::Announcing(event),
        listener.noticed is None,
        forall|i: int|
            0 <= i < others.len() ==> match #[trigger] others[i] {
                ListenerEventView::Device(DeviceEventView::Done) => false,
                ListenerEventView::Device(DeviceEventView::Failed) => false,
                _ => true,
            },
    ensures
        listener.action() is ReadClock,
        listener.after(ListenerEventView::Time(at)).after_all(others).action()
            == ListenerActionView::Emit(TimedTouchEvent { event, at }),
{
    let noticed = listener.after(ListenerEventView::Time(at));
    lemma_notice_stays(noticed, event, at, others);
}

proof fn lemma_notice_stays(
    noticed: ListenerView,
    event: TouchEvent,
    at: Instant,
    others: Seq<ListenerEventView>,
)
    requires
        noticed.session == SessionView::Announcing(event),
        noticed.noticed == Some(at),
        forall|i: int|
            0 <= i < others.len() ==> match #[trigger] others[i] {
                ListenerEventView::Device(DeviceEventView::Done) => false,
                ListenerEventView::Device(DeviceEventView::Failed) => false,
                _ => true,
            },
    ensures
        noticed.after_all(others) == noticed,
    decreases others.len(),
{
    if others.len() > 0 {
        let before = others.drop_last();
        assert forall|i: int| 0 <= i < before.len() implies match #[trigger] before[i] {
            ListenerEventView::Device(DeviceEventView::Done) => false,
            ListenerEventView::Device(DeviceEventView::Failed) => false,
            _ => true,
        } by {
            assert(before[i] == others[i]);
        }
        lemma_notice_stays(noticed, event, at, before);
        assert(others.last() == others[others.len() - 1]);
    }
}

/// After any failure of the device the listener rests for two seconds and then tries the same
/// device again.
pub proof fn law_listener_tries_again(vid: u16, pid: u16, events: Seq<ListenerEventView>)
    ensures
        ({
            let now = first_listener(vid, pid).after_all(events);
            &&& now.session is Over ==> now.action() == ListenerActionView::Rest(
                Duration { nanos: RETRY_NANOS },
            )
            &&& now.session is Over ==> now.after(ListenerEventView::Rested).action()
                == ListenerActionView::Device(DeviceActionView::Open { vid, pid })
        }),
{
    lemma_numbers_stay(first_listener(vid, pid), events);
}

proof fn lemma_numbers_stay(listener: ListenerView, events: Seq<ListenerEventView>)
    ensures
        listener.after_all(events).vid == listener.vid,
        listener.after_all(events).pid == listener.pid,
    decreases events.len(),
{
    if events.len() > 0 {
        lemma_numbers_stay(listener, events.drop_last());
    }
}

/// A touch event is handed on with the time that was read when it was noticed, and with no other. A
/// session that has ended is followed by two seconds of rest, and then by a session with the same
/// sensor.
pub proof fn law_listener_tells_times_and_rests(
    listener: ListenerView,
    touch: TouchEvent,
    now: Instant,
    other: Instant,
)
    ensures
        listener.session == SessionView::Announcing(touch) && listener.noticed is None ==> {
            let noticed = listener.after(ListenerEventView::Time(now));
            &&& listener.action() is ReadClock
            &&& noticed.action() == ListenerActionView::Emit(
                TimedTouchEvent { event: touch, at: now },
            )
            &&& noticed.after(ListenerEventView::Time(other)) == noticed
        },
        listener.session is Over ==> {
            let next = listener.after(ListenerEventView::Rested);
            &&& listener.action() == ListenerActionView::Rest(Duration { nanos: 2_000_000_000 })
            &&& next.session == SessionView::Opening { vid: listener.vid, pid: listener.pid }
            &&& next.vid == listener.vid && next.pid == listener.pid
            &&& next.noticed is None
        },
        listener.session !is Over ==> listener.after(ListenerEventView::Rested) == listener,
{
}

/// A step with the device goes to the session, unless a touch event has no time yet. The time is
/// forgotten once the touch event was handed on, or could not be.
pub proof fn law_steps_go_to_the_session(listener: ListenerView, event: DeviceEventView)
    ensures
        listener.session !is Over && listener.session !is Announcing ==> listener.action()
            == ListenerActionView::Device(listener.session.action()),
        ({
            let next = listener.after(ListenerEventView::Device(event));
            let unnoticed = listener.session is Announcing && listener.noticed is None;
            &&& unnoticed ==> next == listener
            &&& !unnoticed ==> next.session == listener.session.after(event) && next.vid
                == listener.vid && next.pid == listener.pid
            &&& !unnoticed && (event is Done || event is Failed) ==> next.noticed is None
            &&& !unnoticed && !(event is Done || event is Failed) ==> next.noticed == listener.noticed
        }),
        !(listener.session is Announcing && listener.noticed is None) ==> forall|now: Instant|
            #[trigger] listener.after(ListenerEventView::Time(now)) == listener,
        first_listener(listener.vid, listener.pid) == (ListenerView {
            session: SessionView::Opening { vid: listener.vid, pid: listener.pid },
            noticed: None,
            ..listener
        }),
{
}

/// What a listener asks for and what it is told are known by their own parts.
pub proof fn law_listener_steps_are_known_by_their_parts(
    action: ListenerAction,
    event: ListenerEvent,
)
    ensures
        match action {
            ListenerAction::Device(step) => action@ == ListenerActionView::Device(step@),
            ListenerAction::ReadClock => action@ is ReadClock,
            ListenerAction::Emit(touch) => action@ == ListenerActionView::Emit(touch),
            ListenerAction::Rest(span) => action@ == ListenerActionView::Rest(span),
        },
        match event {
            ListenerEvent::Device(step) => event@ == ListenerEventView::Device(step@),
            ListenerEvent::Time(now) => event@ == ListenerEventView::Time(now),
            ListenerEvent::Rested => event@ is Rested,
        },
{
}

} // verus!
