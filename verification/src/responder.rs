//! The two responders, each as a table from state and event to next state.
//!
//! A responder is run from outside: the caller performs the action that the
//! current state asks for, and hands back what came of it as an event. Every
//! action has a good and a bad outcome, but for closing a connection, which
//! has one. The tables decide what follows: a responder stops where its
//! address cannot be bound and nowhere else, every failure is reported, and
//! a failure while a client is served costs that client its answer and the
//! responder nothing.

use crate::store::QuoteStore;
use vstd::prelude::*;

verus! {

/// Where the stream responder stands.
#[derive(Debug, Clone, Copy, PartialEq, Eq, Structural)]
pub enum StreamState {
    /// About to bind its address.
    Binding,
    /// Waiting for the next connection.
    Listening,
    /// Holding a connection that has not had its quote yet.
    SendOneQuote,
    /// Holding a connection that is done with.
    Close,
    /// Ended, its address not bound.
    Stopped,
}

/// What an action of the stream responder came to.
#[derive(Debug, Clone, Copy, PartialEq, Eq, Structural)]
pub enum StreamEvent {
    Bound,
    BindFailed,
    Accepted,
    AcceptFailed,
    Sent,
    SendFailed,
    Closed,
}

/// What the stream responder asks its caller to do.
#[derive(Debug, Clone, Copy, PartialEq, Eq)]
pub enum StreamAction<'a> {
    Bind,
    Accept,
    /// Write all of these bytes to the connection, and read nothing from it.
    Send(&'a [u8]),
    CloseConnection,
    /// Nothing more: the responder has ended.
    Stop,
}

/// A step of a responder: its next state, and whether the event is a failure
/// that is to be reported.
#[derive(Debug, Clone, Copy, PartialEq, Eq, Structural)]
pub struct StreamStep {
    pub next: StreamState,
    pub report: bool,
}

/// Where the datagram responder stands.
#[derive(Debug, Clone, Copy, PartialEq, Eq, Structural)]
pub enum DatagramState {
    /// About to bind its address.
    Binding,
    /// Waiting for the next datagram.
    Receiving,
    /// Holding the source address of a datagram that has not been answered.
    Replying,
    /// Ended, its address not bound.
    Stopped,
}

/// What an action of the datagram responder came to.
#[derive(Debug, Clone, Copy, PartialEq, Eq, Structural)]
pub enum DatagramEvent {
    Bound,
    BindFailed,
    Received,
    ReceiveFailed,
    Replied,
    ReplyFailed,
}

/// What the datagram responder asks its caller to do.
#[derive(Debug, Clone, Copy, PartialEq, Eq)]
pub enum DatagramAction<'a> {
    Bind,
    Receive,
    /// Send these bytes to the address that the last datagram came from,
    /// whatever that datagram held.
    Reply(&'a [u8]),
    /// Nothing more: the responder has ended.
    Stop,
}

/// A step of the datagram responder.
#[derive(Debug, Clone, Copy, PartialEq, Eq, Structural)]
pub struct DatagramStep {
    pub next: DatagramState,
    pub report: bool,
}

/// Whether `event` reports a failure.
pub open spec fn stream_failure(event: StreamEvent) -> bool {
    event == StreamEvent::BindFailed || event == StreamEvent::AcceptFailed || event
        == StreamEvent::SendFailed
}

/// The stream responder's table. An event that is no outcome of the action
/// that `state` asks for has no entry.
pub open spec fn stream_transition(state: StreamState, event: StreamEvent) -> Option<StreamStep> {
    match (state, event) {
        (StreamState::Binding, StreamEvent::Bound) => Some(
            StreamStep { next: StreamState::Listening, report: false },
        ),
        (StreamState::Binding, StreamEvent::BindFailed) => Some(
            StreamStep { next: StreamState::Stopped, report: true },
        ),
        (StreamState::Listening, StreamEvent::Accepted) => Some(
            StreamStep { next: StreamState::SendOneQuote, report: false },
        ),
        (StreamState::Listening, StreamEvent::AcceptFailed) => Some(
            StreamStep { next: StreamState::Listening, report: true },
        ),
        (StreamState::SendOneQuote, StreamEvent::Sent) => Some(
            StreamStep { next: StreamState::Close, report: false },
        ),
        (StreamState::SendOneQuote, StreamEvent::SendFailed) => Some(
            StreamStep { next: StreamState::Close, report: true },
        ),
        (StreamState::Close, StreamEvent::Closed) => Some(
            StreamStep { next: StreamState::Listening, report: false },
        ),
        _ => None,
    }
}

/// Whether `event` reports a failure.
pub open spec fn datagram_failure(event: DatagramEvent) -> bool {
    event == DatagramEvent::BindFailed || event == DatagramEvent::ReceiveFailed || event
        == DatagramEvent::ReplyFailed
}

/// The datagram responder's table. An event that is no outcome of the action
/// that `state` asks for has no entry.
pub open spec fn datagram_transition(state: DatagramState, event: DatagramEvent) -> Option<
    DatagramStep,
> {
    match (state, event) {
        (DatagramState::Binding, DatagramEvent::Bound) => Some(
            DatagramStep { next: DatagramState::Receiving, report: false },
        ),
        (DatagramState::Binding, DatagramEvent::BindFailed) => Some(
            DatagramStep { next: DatagramState::Stopped, report: true },
        ),
        (DatagramState::Receiving, DatagramEvent::Received) => Some(
            DatagramStep { next: DatagramState::Replying, report: false },
        ),
        (DatagramState::Receiving, DatagramEvent::ReceiveFailed) => Some(
            DatagramStep { next: DatagramState::Receiving, report: true },
        ),
        (DatagramState::Replying, DatagramEvent::Replied) => Some(
            DatagramStep { next: DatagramState::Receiving, report: false },
        ),
        (DatagramState::Replying, DatagramEvent::ReplyFailed) => Some(
            DatagramStep { next: DatagramState::Receiving, report: true },
        ),
        _ => None,
    }
}

/// What the stream responder asks for in `state`. For a connection that
/// waits for its quote, one quote is drawn from the store.
pub fn stream_action<'a>(state: StreamState, store: &'a QuoteStore) -> (action: StreamAction<'a>)
    ensures
        match state {
            StreamState::Binding => action == StreamAction::Bind,
            StreamState::Listening => action == StreamAction::Accept,
            StreamState::SendOneQuote => action matches StreamAction::Send(bytes) && exists|i: int|
                0 <= i < store@.len() && bytes@ == store@[i],
            StreamState::Close => action == StreamAction::CloseConnection,
            StreamState::Stopped => action == StreamAction::Stop,
        },
{
    match state {
        StreamState::Binding => StreamAction::Bind,
        StreamState::Listening => StreamAction::Accept,
        StreamState::SendOneQuote => StreamAction::Send(store.choose_random_one().as_slice()),
        StreamState::Close => StreamAction::CloseConnection,
        StreamState::Stopped => StreamAction::Stop,
    }
}

/// The step that the stream responder takes on `event`, or `None` where
/// `event` is no outcome of the action that `state` asks for.
pub fn stream_step(state: StreamState, event: StreamEvent) -> (step: Option<StreamStep>)
    ensures
        step == stream_transition(state, event),
{
    let next = match state {
        StreamState::Binding => match event {
            StreamEvent::Bound => StreamState::Listening,
            StreamEvent::BindFailed => StreamState::Stopped,
            _ => { return None; },
        },
        StreamState::Listening => match event {
            StreamEvent::Accepted => StreamState::SendOneQuote,
            StreamEvent::AcceptFailed => StreamState::Listening,
            _ => { return None; },
        },
        StreamState::SendOneQuote => match event {
            StreamEvent::Sent | StreamEvent::SendFailed => StreamState::Close,
            _ => { return None; },
        },
        StreamState::Close => match event {
            StreamEvent::Closed => StreamState::Listening,
            _ => { return None; },
        },
        StreamState::Stopped => { return None; },
    };
    let report = match event {
        StreamEvent::BindFailed | StreamEvent::AcceptFailed | StreamEvent::SendFailed => true,
        _ => false,
    };
    Some(StreamStep { next, report })
}

/// What the datagram responder asks for in `state`. For a datagram that
/// waits for its answer, one quote is drawn from the store.
pub fn datagram_action<'a>(state: DatagramState, store: &'a QuoteStore) -> (action:
    DatagramAction<'a>)
    ensures
        match state {
            DatagramState::Binding => action == DatagramAction::Bind,
            DatagramState::Receiving => action == DatagramAction::Receive,
            DatagramState::Replying => action matches DatagramAction::Reply(bytes) && exists|
                i: int,
            | 0 <= i < store@.len() && bytes@ == store@[i],
            DatagramState::Stopped => action == DatagramAction::Stop,
        },
{
    match state {
        DatagramState::Binding => DatagramAction::Bind,
        DatagramState::Receiving => DatagramAction::Receive,
        DatagramState::Replying => DatagramAction::Reply(store.choose_random_one().as_slice()),
        DatagramState::Stopped => DatagramAction::Stop,
    }
}

/// The step that the datagram responder takes on `event`, or `None` where
/// `event` is no outcome of the action that `state` asks for.
pub fn datagram_step(state: DatagramState, event: DatagramEvent) -> (step: Option<DatagramStep>)
    ensures
        step == datagram_transition(state, event),
{
    let next = match state {
        DatagramState::Binding => match event {
            DatagramEvent::Bound => DatagramState::Receiving,
            DatagramEvent::BindFailed => DatagramState::Stopped,
            _ => { return None; },
        },
        DatagramState::Receiving => match event {
            DatagramEvent::Received => DatagramState::Replying,
            DatagramEvent::ReceiveFailed => DatagramState::Receiving,
            _ => { return None; },
        },
        DatagramState::Replying => match event {
            DatagramEvent::Replied | DatagramEvent::ReplyFailed => DatagramState::Receiving,
            _ => { return None; },
        },
        DatagramState::Stopped => { return None; },
    };
    let report = match event {
        DatagramEvent::BindFailed | DatagramEvent::ReceiveFailed | DatagramEvent::ReplyFailed => true,
        _ => false,
    };
    Some(DatagramStep { next, report })
}

/// Where the stream responder stands after `events`, one after the other,
/// or `None` where one of them has no entry in the table.
pub open spec fn stream_run(state: StreamState, events: Seq<StreamEvent>) -> Option<StreamState>
    decreases events.len(),
{
    if events.len() == 0 {
        Some(state)
    } else {
        match stream_transition(state, events[0]) {
            Some(step) => stream_run(step.next, events.drop_first()),
            None => None,
        }
    }
}

/// Where the datagram responder stands after `events`, one after the other,
/// or `None` where one of them has no entry in the table.
pub open spec fn datagram_run(state: DatagramState, events: Seq<DatagramEvent>) -> Option<
    DatagramState,
>
    decreases events.len(),
{
    if events.len() == 0 {
        Some(state)
    } else {
        match datagram_transition(state, events[0]) {
            Some(step) => datagram_run(step.next, events.drop_first()),
            None => None,
        }
    }
}

/// Of one step of the stream responder: it is reported exactly where the
/// event is a failure, and it stops the responder exactly where the address
/// could not be bound. Nothing follows once the responder has stopped.
pub proof fn lemma_stream_step(state: StreamState, event: StreamEvent)
    ensures
        stream_transition(state, event) matches Some(step) ==> {
            &&& step.report == stream_failure(event)
            &&& (step.next == StreamState::Stopped <==> state == StreamState::Binding && event
                == StreamEvent::BindFailed)
            &&& step.next != StreamState::Binding
        },
        state == StreamState::Stopped ==> stream_transition(state, event) is None,
{
}

/// Every accepted connection gets one quote and is then closed, whether or
/// not the quote could be written: from listening, the only way back to
/// listening that passes through an accepted connection is to send, then to
/// close.
pub proof fn lemma_stream_one_quote_per_connection(events: Seq<StreamEvent>)
    requires
        events.len() == 3,
        events[0] == StreamEvent::Accepted,
        stream_run(StreamState::Listening, events) is Some,
    ensures
        events[1] == StreamEvent::Sent || events[1] == StreamEvent::SendFailed,
        events[2] == StreamEvent::Closed,
        stream_run(StreamState::Listening, events.subrange(0, 1)) == Some(
            StreamState::SendOneQuote,
        ),
        stream_run(StreamState::Listening, events.subrange(0, 2)) == Some(StreamState::Close),
        stream_run(StreamState::Listening, events) == Some(StreamState::Listening),
{
    reveal_with_fuel(stream_run, 4);
    let rest = events.drop_first();
    let last = rest.drop_first();
    assert(rest[0] == events[1]);
    assert(last[0] == events[2]);
    assert(last.drop_first().len() == 0);
    let one = events.subrange(0, 1);
    assert(one[0] == events[0] && one.drop_first().len() == 0);
    let two = events.subrange(0, 2);
    assert(two[0] == events[0] && two.drop_first()[0] == events[1]);
    assert(two.drop_first().drop_first().len() == 0);
}

/// Once its address is bound the stream responder never stops, whatever
/// fails while it serves.
pub proof fn lemma_stream_never_stops(state: StreamState, events: Seq<StreamEvent>)
    requires
        state != StreamState::Binding,
        state != StreamState::Stopped,
    ensures
        stream_run(state, events) matches Some(end) ==> end != StreamState::Stopped && end
            != StreamState::Binding,
    decreases events.len(),
{
    if events.len() > 0 {
        match stream_transition(state, events[0]) {
            Some(step) => {
                lemma_stream_never_stops(step.next, events.drop_first());
            },
            None => {},
        }
    }
}

/// Of one step of the datagram responder: it is reported exactly where the
/// event is a failure, and it stops the responder exactly where the address
/// could not be bound. Nothing follows once the responder has stopped. A
/// datagram that was received is answered next, and the responder then
/// waits for the next one, whether or not the answer could be sent.
pub proof fn lemma_datagram_step(state: DatagramState, event: DatagramEvent)
    ensures
        datagram_transition(state, event) matches Some(step) ==> {
            &&& step.report == datagram_failure(event)
            &&& (step.next == DatagramState::Stopped <==> state == DatagramState::Binding && event
                == DatagramEvent::BindFailed)
            &&& step.next != DatagramState::Binding
            &&& (step.next == DatagramState::Replying <==> event == DatagramEvent::Received)
            &&& (state == DatagramState::Replying ==> step.next == DatagramState::Receiving)
        },
        state == DatagramState::Stopped ==> datagram_transition(state, event) is None,
{
}

/// Once its address is bound the datagram responder never stops, whatever
/// fails while it serves.
pub proof fn lemma_datagram_never_stops(state: DatagramState, events: Seq<DatagramEvent>)
    requires
        state != DatagramState::Binding,
        state != DatagramState::Stopped,
    ensures
        datagram_run(state, events) matches Some(end) ==> end != DatagramState::Stopped && end
            != DatagramState::Binding,
    decreases events.len(),
{
    if events.len() > 0 {
        match datagram_transition(state, events[0]) {
            Some(step) => {
                lemma_datagram_never_stops(step.next, events.drop_first());
            },
            None => {},
        }
    }
}

} // verus!
