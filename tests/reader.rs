use ws_broker::reader::{FrameOutcome, ReadError, Reader, ReaderStep};
use ws_broker::registry::Recipient;

#[test]
fn empty_read_means_peer_gone() {
    let mut r = Reader::new(4);
    assert_eq!(r.on_read(&[]), Err(ReadError::ClosedByRemote));
    assert!(r.unparsed().is_empty());
}

#[test]
fn reads_accumulate_across_split_frames() {
    let mut whole = Reader::new(1);
    whole.on_read(&[0x81, 0x02, b'h', b'i']).unwrap();
    let mut split = Reader::new(1);
    split.on_read(&[0x81]).unwrap();
    split.on_read(&[0x02, b'h']).unwrap();
    split.on_read(&[b'i']).unwrap();
    assert_eq!(whole.unparsed(), split.unparsed());
    assert_eq!(split.unparsed(), &[0x81, 0x02, b'h', b'i']);
}

#[test]
fn data_frame_is_broadcast_and_consumed() {
    let mut r = Reader::new(1);
    r.on_read(&[0x81, 0x02, b'h', b'i', 0x89]).unwrap();
    let step = r.on_outcome(FrameOutcome::Parsed {
        consumed: 4,
        response: Some(vec![0x81, 0x02, b'h', b'i']),
        is_data: true,
        is_close: false,
    });
    match step {
        ReaderStep::Deliver { payload, recipient, last } => {
            assert_eq!(payload, vec![0x81, 0x02, b'h', b'i']);
            assert_eq!(recipient, Recipient::All);
            assert!(!last);
        }
        _ => panic!("expected a delivery"),
    }
    assert_eq!(r.unparsed(), &[0x89]);
}

#[test]
fn control_frame_goes_back_to_sender() {
    let mut r = Reader::new(42);
    r.on_read(&[0x89, 0x00]).unwrap();
    let step = r.on_outcome(FrameOutcome::Parsed {
        consumed: 2,
        response: Some(vec![0x8a, 0x00]),
        is_data: false,
        is_close: false,
    });
    match step {
        ReaderStep::Deliver { payload, recipient, last } => {
            assert_eq!(payload, vec![0x8a, 0x00]);
            assert_eq!(recipient, Recipient::User(42));
            assert!(!last);
        }
        _ => panic!("expected a delivery"),
    }
    assert!(r.unparsed().is_empty());
}

#[test]
fn close_frame_is_last() {
    let mut r = Reader::new(3);
    r.on_read(&[0x88, 0x00]).unwrap();
    let step = r.on_outcome(FrameOutcome::Parsed {
        consumed: 2,
        response: Some(vec![0x88, 0x00]),
        is_data: false,
        is_close: true,
    });
    assert!(matches!(
        step,
        ReaderStep::Deliver { recipient: Recipient::User(3), last: true, .. }
    ));
}

#[test]
fn frame_without_response_is_skipped() {
    let mut r = Reader::new(3);
    r.on_read(&[0x8a, 0x00, 0x81]).unwrap();
    let step = r.on_outcome(FrameOutcome::Parsed {
        consumed: 2,
        response: None,
        is_data: false,
        is_close: false,
    });
    assert!(matches!(step, ReaderStep::Skip));
    assert_eq!(r.unparsed(), &[0x81]);
}

#[test]
fn close_without_response_keeps_reading() {
    let mut r = Reader::new(3);
    r.on_read(&[0x88, 0x00, 0x81]).unwrap();
    let step = r.on_outcome(FrameOutcome::Parsed {
        consumed: 2,
        response: None,
        is_data: false,
        is_close: true,
    });
    assert!(matches!(step, ReaderStep::Skip));
    assert_eq!(r.unparsed(), &[0x81]);
}

#[test]
fn incomplete_frame_asks_for_more() {
    let mut r = Reader::new(3);
    r.on_read(&[0x81]).unwrap();
    assert!(matches!(r.on_outcome(FrameOutcome::NeedMoreData), ReaderStep::NeedRead));
    assert_eq!(r.unparsed(), &[0x81]);
}

#[test]
fn invalid_bytes_fail() {
    let mut r = Reader::new(3);
    r.on_read(&[0xff]).unwrap();
    assert!(matches!(r.on_outcome(FrameOutcome::Invalid), ReaderStep::Fail));
    assert_eq!(r.connection(), 3);
}

/// A stand-in codec: a frame is one length byte followed by that many bytes,
/// all passed on to everyone.
fn toy_parse(bytes: &[u8]) -> FrameOutcome {
    if bytes.is_empty() || bytes.len() < 1 + bytes[0] as usize {
        return FrameOutcome::NeedMoreData;
    }
    let n = 1 + bytes[0] as usize;
    FrameOutcome::Parsed {
        consumed: n,
        response: Some(bytes[1..n].to_vec()),
        is_data: true,
        is_close: false,
    }
}

fn run_reads(chunks: &[&[u8]]) -> Vec<(Vec<u8>, Recipient)> {
    let mut reader = Reader::new(9);
    let mut out = Vec::new();
    let mut next = 0;
    loop {
        match reader.on_outcome(toy_parse(reader.unparsed())) {
            ReaderStep::Deliver { payload, recipient, .. } => out.push((payload, recipient)),
            ReaderStep::NeedRead => {
                if next == chunks.len() {
                    return out;
                }
                reader.on_read(chunks[next]).unwrap();
                next += 1;
            }
            _ => return out,
        }
    }
}

#[test]
fn split_reads_pass_on_what_one_read_does() {
    let stream: &[u8] = &[2, b'h', b'i', 0, 3, b'a', b'b', b'c'];
    let whole = run_reads(&[stream]);
    assert_eq!(
        whole,
        vec![
            (b"hi".to_vec(), Recipient::All),
            (vec![], Recipient::All),
            (b"abc".to_vec(), Recipient::All),
        ]
    );
    assert_eq!(run_reads(&[&stream[..1], &stream[1..5], &stream[5..]]), whole);
    let bytes: Vec<&[u8]> = stream.iter().map(std::slice::from_ref).collect();
    assert_eq!(run_reads(&bytes), whole);
}
