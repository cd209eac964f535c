use qotd::responder::{
    datagram_action, datagram_step, stream_action, stream_step, DatagramAction, DatagramEvent,
    DatagramState, DatagramStep, StreamAction, StreamEvent, StreamState, StreamStep,
};
use qotd::store::{load, QuoteStore};

const STREAM_STATES: [StreamState; 5] = [
    StreamState::Binding,
    StreamState::Listening,
    StreamState::SendOneQuote,
    StreamState::Close,
    StreamState::Stopped,
];

const STREAM_EVENTS: [StreamEvent; 7] = [
    StreamEvent::Bound,
    StreamEvent::BindFailed,
    StreamEvent::Accepted,
    StreamEvent::AcceptFailed,
    StreamEvent::Sent,
    StreamEvent::SendFailed,
    StreamEvent::Closed,
];

const DATAGRAM_STATES: [DatagramState; 4] = [
    DatagramState::Binding,
    DatagramState::Receiving,
    DatagramState::Replying,
    DatagramState::Stopped,
];

const DATAGRAM_EVENTS: [DatagramEvent; 6] = [
    DatagramEvent::Bound,
    DatagramEvent::BindFailed,
    DatagramEvent::Received,
    DatagramEvent::ReceiveFailed,
    DatagramEvent::Replied,
    DatagramEvent::ReplyFailed,
];

fn legacy_store() -> QuoteStore {
    QuoteStore::new(load(None, b"abc\n%\ndef\n%\n").quotes).unwrap()
}

#[test]
fn stream_serves_one_quote_and_closes() {
    let store = legacy_store();
    let mut state = StreamState::Binding;
    assert_eq!(stream_action(state, &store), StreamAction::Bind);
    state = stream_step(state, StreamEvent::Bound).unwrap().next;
    for _ in 0..50 {
        assert_eq!(state, StreamState::Listening);
        assert_eq!(stream_action(state, &store), StreamAction::Accept);
        state = stream_step(state, StreamEvent::Accepted).unwrap().next;
        assert_eq!(state, StreamState::SendOneQuote);
        match stream_action(state, &store) {
            StreamAction::Send(bytes) => assert!(bytes == b"abc\n" || bytes == b"def\n"),
            other => panic!("{:?}", other),
        }
        let step = stream_step(state, StreamEvent::Sent).unwrap();
        assert_eq!(step, StreamStep { next: StreamState::Close, report: false });
        state = step.next;
        assert_eq!(stream_action(state, &store), StreamAction::CloseConnection);
        state = stream_step(state, StreamEvent::Closed).unwrap().next;
    }
    assert_eq!(state, StreamState::Listening);
}

#[test]
fn stream_stops_where_it_cannot_bind() {
    let store = legacy_store();
    let step = stream_step(StreamState::Binding, StreamEvent::BindFailed).unwrap();
    assert_eq!(step, StreamStep { next: StreamState::Stopped, report: true });
    assert_eq!(stream_action(step.next, &store), StreamAction::Stop);
    for event in STREAM_EVENTS {
        assert_eq!(stream_step(StreamState::Stopped, event), None);
    }
}

#[test]
fn stream_survives_failures_of_a_request() {
    assert_eq!(
        stream_step(StreamState::Listening, StreamEvent::AcceptFailed),
        Some(StreamStep { next: StreamState::Listening, report: true })
    );
    assert_eq!(
        stream_step(StreamState::SendOneQuote, StreamEvent::SendFailed),
        Some(StreamStep { next: StreamState::Close, report: true })
    );
    assert_eq!(
        stream_step(StreamState::Close, StreamEvent::Closed),
        Some(StreamStep { next: StreamState::Listening, report: false })
    );
}

#[test]
fn stream_table_as_a_whole() {
    let mut entries = 0;
    for state in STREAM_STATES {
        for event in STREAM_EVENTS {
            if let Some(step) = stream_step(state, event) {
                entries += 1;
                let failure = matches!(
                    event,
                    StreamEvent::BindFailed | StreamEvent::AcceptFailed | StreamEvent::SendFailed
                );
                assert_eq!(step.report, failure);
                assert_eq!(
                    step.next == StreamState::Stopped,
                    state == StreamState::Binding && event == StreamEvent::BindFailed
                );
                assert_ne!(step.next, StreamState::Binding);
            }
        }
    }
    assert_eq!(entries, 7);
    assert_eq!(stream_step(StreamState::Listening, StreamEvent::Sent), None);
    assert_eq!(stream_step(StreamState::Listening, StreamEvent::Bound), None);
    assert_eq!(stream_step(StreamState::SendOneQuote, StreamEvent::Accepted), None);
    assert_eq!(stream_step(StreamState::Close, StreamEvent::Sent), None);
    assert_eq!(stream_step(StreamState::Binding, StreamEvent::Accepted), None);
}

#[test]
fn datagram_answers_with_one_quote() {
    let store = legacy_store();
    let mut state = DatagramState::Binding;
    assert_eq!(datagram_action(state, &store), DatagramAction::Bind);
    state = datagram_step(state, DatagramEvent::Bound).unwrap().next;
    for _ in 0..50 {
        assert_eq!(state, DatagramState::Receiving);
        assert_eq!(datagram_action(state, &store), DatagramAction::Receive);
        state = datagram_step(state, DatagramEvent::Received).unwrap().next;
        assert_eq!(state, DatagramState::Replying);
        match datagram_action(state, &store) {
            DatagramAction::Reply(bytes) => assert!(bytes == b"abc\n" || bytes == b"def\n"),
            other => panic!("{:?}", other),
        }
        let step = datagram_step(state, DatagramEvent::Replied).unwrap();
        assert_eq!(step, DatagramStep { next: DatagramState::Receiving, report: false });
        state = step.next;
    }
}

#[test]
fn datagram_stops_where_it_cannot_bind() {
    let store = legacy_store();
    let step = datagram_step(DatagramState::Binding, DatagramEvent::BindFailed).unwrap();
    assert_eq!(step, DatagramStep { next: DatagramState::Stopped, report: true });
    assert_eq!(datagram_action(step.next, &store), DatagramAction::Stop);
    for event in DATAGRAM_EVENTS {
        assert_eq!(datagram_step(DatagramState::Stopped, event), None);
    }
}

#[test]
fn datagram_survives_failures_of_a_request() {
    assert_eq!(
        datagram_step(DatagramState::Receiving, DatagramEvent::ReceiveFailed),
        Some(DatagramStep { next: DatagramState::Receiving, report: true })
    );
    assert_eq!(
        datagram_step(DatagramState::Replying, DatagramEvent::ReplyFailed),
        Some(DatagramStep { next: DatagramState::Receiving, report: true })
    );
}

#[test]
fn datagram_table_as_a_whole() {
    let mut entries = 0;
    for state in DATAGRAM_STATES {
        for event in DATAGRAM_EVENTS {
            if let Some(step) = datagram_step(state, event) {
                entries += 1;
                let failure = matches!(
                    event,
                    DatagramEvent::BindFailed
                        | DatagramEvent::ReceiveFailed
                        | DatagramEvent::ReplyFailed
                );
                assert_eq!(step.report, failure);
                assert_eq!(
                    step.next == DatagramState::Stopped,
                    state == DatagramState::Binding && event == DatagramEvent::BindFailed
                );
                assert_ne!(step.next, DatagramState::Binding);
            }
        }
    }
    assert_eq!(entries, 6);
    assert_eq!(datagram_step(DatagramState::Receiving, DatagramEvent::Replied), None);
    assert_eq!(datagram_step(DatagramState::Replying, DatagramEvent::Received), None);
    assert_eq!(datagram_step(DatagramState::Binding, DatagramEvent::Received), None);
}

#[test]
fn responders_serve_what_the_fallback_load_gives_after_a_bad_index() {
    let text = b"abc\n%\ndef\n%\n";
    let corrupt = [0u8, 0, 0, 1, 0, 0, 0, 2, 0, 0, 0, 0, 0, 0, 0, 0, 0, 0, 0, 0, b'%', 0, 0, 0, 0];
    let store = QuoteStore::new(load(Some(&corrupt), text).quotes).unwrap();
    let direct = legacy_store();
    assert_eq!(store.len(), direct.len());
    for i in 0..store.len() {
        assert_eq!(store.get(i), direct.get(i));
    }
    for _ in 0..50 {
        match stream_action(StreamState::SendOneQuote, &store) {
            StreamAction::Send(bytes) => assert!(bytes == b"abc\n" || bytes == b"def\n"),
            other => panic!("{:?}", other),
        }
        match datagram_action(DatagramState::Replying, &store) {
            DatagramAction::Reply(bytes) => assert!(bytes == b"abc\n" || bytes == b"def\n"),
            other => panic!("{:?}", other),
        }
    }
}
