use ws_broker::broker::{protocol_error_notice, Broker, BrokerEvent, BrokerOutput};
use ws_broker::reader::{FrameOutcome, ReadError, Reader, ReaderStep};
use ws_broker::registry::{Delivery, Recipient};
use ws_broker::writer::{after_write, WriterStep};

const A: u128 = 0xa;
const B: u128 = 0xb;

fn connect(broker: &mut Broker, id: u128) -> may::sync::mpsc::Receiver<Vec<u8>> {
    match broker.handle_event(BrokerEvent::NewConnection(id)) {
        BrokerOutput::Registered(rx) => rx,
        _ => panic!("expected a fresh registration"),
    }
}

fn deliver(broker: &mut Broker, step: ReaderStep) -> Vec<Delivery> {
    match step {
        ReaderStep::Deliver { payload, recipient, .. } => {
            match broker.handle_event(BrokerEvent::Message(payload, recipient)) {
                BrokerOutput::Dispatched(d) => d,
                _ => panic!("expected a dispatch"),
            }
        }
        _ => panic!("expected a delivery"),
    }
}

#[test]
fn second_registration_is_refused() {
    let mut broker = Broker::new();
    let _rx = connect(&mut broker, A);
    assert!(matches!(
        broker.handle_event(BrokerEvent::NewConnection(A)),
        BrokerOutput::AlreadyRegistered
    ));
    assert_eq!(broker.registry().len(), 1);
}

#[test]
fn text_from_one_reaches_both() {
    let mut broker = Broker::new();
    let ra = connect(&mut broker, A);
    let rb = connect(&mut broker, B);
    let frame = vec![0x81, 0x05, b'h', b'e', b'l', b'l', b'o'];
    let mut reader = Reader::new(A);
    reader.on_read(&frame).unwrap();
    let step = reader.on_outcome(FrameOutcome::Parsed {
        consumed: frame.len(),
        response: Some(frame.clone()),
        is_data: true,
        is_close: false,
    });
    let d = deliver(&mut broker, step);
    assert_eq!(d.len(), 2);
    assert_eq!(ra.try_recv().unwrap(), frame);
    assert_eq!(rb.try_recv().unwrap(), frame);
}

#[test]
fn close_from_one_leaves_the_other() {
    let mut broker = Broker::new();
    let ra = connect(&mut broker, A);
    let rb = connect(&mut broker, B);
    let close = vec![0x88, 0x00];
    let mut reader = Reader::new(A);
    reader.on_read(&close).unwrap();
    let step = reader.on_outcome(FrameOutcome::Parsed {
        consumed: 2,
        response: Some(close.clone()),
        is_data: false,
        is_close: true,
    });
    let d = deliver(&mut broker, step);
    assert_eq!(d, vec![Delivery { id: A, accepted: true }]);
    let sent = ra.try_recv().unwrap();
    assert_eq!(sent, close);
    assert_eq!(after_write(true, &sent), WriterStep::Stop);
    assert!(broker.handle_disconnect(A));
    assert!(!broker.registry().contains(A));
    assert!(broker.registry().contains(B));
    assert!(rb.try_recv().is_err());
}

#[test]
fn severed_stream_notifies_only_its_owner() {
    let mut broker = Broker::new();
    let ra = connect(&mut broker, A);
    let rb = connect(&mut broker, B);
    let mut reader = Reader::new(A);
    assert_eq!(reader.on_read(&[]), Err(ReadError::ClosedByRemote));
    match broker.handle_event(protocol_error_notice(A)) {
        BrokerOutput::Dispatched(d) => assert_eq!(d, vec![Delivery { id: A, accepted: true }]),
        _ => panic!("expected a dispatch"),
    }
    assert_eq!(ra.try_recv().unwrap(), vec![0x88, 0x02, 0x03, 0xea]);
    assert!(rb.try_recv().is_err());
    assert!(broker.handle_disconnect(A));
    assert!(broker.registry().contains(B));
    assert_eq!(broker.registry().len(), 1);
}

#[test]
fn disconnect_twice_is_disconnect_once() {
    let mut broker = Broker::new();
    let _ra = connect(&mut broker, A);
    let _rb = connect(&mut broker, B);
    assert!(broker.handle_disconnect(A));
    assert!(!broker.handle_disconnect(A));
    assert_eq!(broker.registry().len(), 1);
    assert!(broker.registry().contains(B));
}

#[test]
fn reconnect_after_teardown() {
    let mut broker = Broker::new();
    let _ra = connect(&mut broker, A);
    broker.handle_disconnect(A);
    let ra2 = connect(&mut broker, A);
    deliver(
        &mut broker,
        ReaderStep::Deliver { payload: vec![1], recipient: Recipient::All, last: false },
    );
    assert_eq!(ra2.try_recv().unwrap(), vec![1]);
}
