//! The decisions of a connection's reader: it keeps the bytes received and
//! not yet parsed, and turns each outcome of the frame codec into what to do
//! next.
use vstd::prelude::*;
use crate::buffer::{buffer_advance, buffer_bytes, buffer_extend, buffer_new, buffered_bytes};
use crate::registry::Recipient;

verus! {

/// What the frame codec made of the unparsed bytes.
pub enum FrameOutcome {
    /// One frame was parsed from the first `consumed` bytes. `response` is the
    /// encoded frame to pass on, if the frame yields one; `is_data` tells a
    /// text, binary or continuation frame; `is_close` a close frame.
    Parsed { consumed: usize, response: Option<Vec<u8>>, is_data: bool, is_close: bool },
    /// The bytes hold no whole frame yet.
    NeedMoreData,
    /// The bytes cannot start a frame.
    Invalid,
}

/// What the reader does next.
pub enum ReaderStep {
    /// Pass `payload` to `recipient`; stop reading afterwards if `last`.
    Deliver { payload: Vec<u8>, recipient: Recipient, last: bool },
    /// A frame with nothing to pass on was consumed; parse again.
    Skip,
    /// Read more bytes from the stream.
    NeedRead,
    /// The stream carries a protocol error: tear the connection down.
    Fail,
}

/// Why a read ended the connection.
#[derive(Clone, Copy, Debug, PartialEq, Eq, Structural)]
pub enum ReadError {
    /// A read returned no bytes: the peer closed the stream without a close
    /// frame.
    ClosedByRemote,
}

/// The recipient of a parsed frame's response: data frames go to everyone,
/// any other frame back to its own connection.
pub open spec fn route_of(own: u128, is_data: bool) -> Recipient {
    if is_data {
        Recipient::All
    } else {
        Recipient::User(own)
    }
}

/// The unparsed bytes once the codec's outcome has been acted on.
pub open spec fn rest_after(pending: Seq<u8>, outcome: FrameOutcome) -> Seq<u8> {
    match outcome {
        FrameOutcome::Parsed { consumed, .. } => pending.subrange(
            consumed as int,
            pending.len() as int,
        ),
        _ => pending,
    }
}

/// Whether `step` is what the reader of connection `own` does on `outcome`.
pub open spec fn step_matches(own: u128, outcome: FrameOutcome, step: ReaderStep) -> bool {
    match outcome {
        FrameOutcome::Parsed { response, is_data, is_close, .. } => match response {
            Some(p) => step matches ReaderStep::Deliver { payload, recipient, last } && payload@
                == p@ && recipient == route_of(own, is_data) && last == (!is_data && is_close),
            None => step is Skip,
        },
        FrameOutcome::NeedMoreData => step is NeedRead,
        FrameOutcome::Invalid => step is Fail,
    }
}

/// The reader state of one connection. It is owned by that connection's
/// reader task alone.
pub struct Reader {
    own: u128,
    buffer: bytes::BytesMut,
}

impl Reader {
    /// The connection this reader belongs to.
    pub closed spec fn id(&self) -> u128 {
        self.own
    }

    /// The bytes received and not yet consumed by a frame.
    pub closed spec fn pending(&self) -> Seq<u8> {
        buffered_bytes(self.buffer)
    }

    /// A reader for connection `id` with nothing buffered.
    pub fn new(id: u128) -> (r: Reader)
        ensures
            r.id() == id,
            r.pending() == Seq::<u8>::empty(),
    {
        Reader { own: id, buffer: buffer_new() }
    }

    /// The connection this reader belongs to.
    pub fn connection(&self) -> (r: u128)
        ensures
            r == self.id(),
    {
        self.own
    }

    /// The bytes to hand to the codec.
    pub fn unparsed(&self) -> (r: &[u8])
        ensures
            r@ == self.pending(),
    {
        buffer_bytes(&self.buffer)
    }

    /// Takes the bytes of one read. An empty read means the peer has gone.
    pub fn on_read(&mut self, data: &[u8]) -> (r: Result<(), ReadError>)
        ensures
            final(self).id() == old(self).id(),
            r is Err <==> data@.len() == 0,
            r is Ok ==> final(self).pending() == old(self).pending() + data@,
            r is Err ==> final(self).pending() == old(self).pending(),
    {
        if data.len() == 0 {
            return Err(ReadError::ClosedByRemote);
        }
        buffer_extend(&mut self.buffer, data);
        Ok(())
    }

    /// Acts on what the codec made of the unparsed bytes: drops the bytes of
    /// a parsed frame and says what to do next.
    pub fn on_outcome(&mut self, outcome: FrameOutcome) -> (r: ReaderStep)
        requires
            outcome matches FrameOutcome::Parsed { consumed, .. } ==> consumed
                <= old(self).pending().len(),
        ensures
            final(self).id() == old(self).id(),
            final(self).pending() == rest_after(old(self).pending(), outcome),
            step_matches(old(self).id(), outcome, r),
            step_messages(r) == emitted(old(self).id(), outcome),
    {
        match outcome {
            FrameOutcome::Parsed { consumed, response, is_data, is_close } => {
                buffer_advance(&mut self.buffer, consumed);
                let last = !is_data && is_close;
                match response {
                    Some(payload) => {
                        let recipient = if is_data {
                            Recipient::All
                        } else {
                            Recipient::User(self.own)
                        };
                        ReaderStep::Deliver { payload, recipient, last }
                    },
                    None => ReaderStep::Skip,
                }
            },
            FrameOutcome::NeedMoreData => ReaderStep::NeedRead,
            FrameOutcome::Invalid => ReaderStep::Fail,
        }
    }
}

} // verus!

verus! {

/// The bytes of `chunks`, one after another.
pub open spec fn concat_chunks(chunks: Seq<Seq<u8>>) -> Seq<u8>
    decreases chunks.len(),
{
    if chunks.len() == 0 {
        Seq::empty()
    } else {
        chunks[0] + concat_chunks(chunks.drop_first())
    }
}

/// The messages a step passes on.
pub open spec fn step_messages(step: ReaderStep) -> Seq<(Seq<u8>, Recipient)> {
    match step {
        ReaderStep::Deliver { payload, recipient, .. } => seq![(payload@, recipient)],
        _ => Seq::empty(),
    }
}

/// What a parsed frame passes on: its response, with the recipient its kind
/// calls for.
pub open spec fn emitted(own: u128, outcome: FrameOutcome) -> Seq<(Seq<u8>, Recipient)> {
    match outcome {
        FrameOutcome::Parsed { response: Some(p), is_data, .. } => seq![(p@, route_of(own, is_data))],
        _ => Seq::empty(),
    }
}

/// The messages the reader of connection `own` passes on when, with
/// `pending` buffered, the stream goes on to deliver `chunks` one read at a
/// time and the codec is `codec`. Parsing goes on while frames come; a close
/// frame once its response is passed on, a protocol error or the end of the
/// reads ends it.
pub open spec fn read_run(
    codec: spec_fn(Seq<u8>) -> FrameOutcome,
    own: u128,
    pending: Seq<u8>,
    chunks: Seq<Seq<u8>>,
) -> Seq<(Seq<u8>, Recipient)>
    decreases pending.len() + concat_chunks(chunks).len(), chunks.len(),
{
    let outcome = codec(pending);
    match outcome {
        FrameOutcome::Parsed { consumed, response, is_data, is_close } => {
            if 0 < consumed <= pending.len() {
                if response is Some && !is_data && is_close {
                    emitted(own, outcome)
                } else {
                    emitted(own, outcome) + read_run(
                        codec,
                        own,
                        pending.subrange(consumed as int, pending.len() as int),
                        chunks,
                    )
                }
            } else {
                Seq::empty()
            }
        },
        FrameOutcome::NeedMoreData => if chunks.len() == 0 {
            Seq::empty()
        } else {
            read_run(codec, own, pending + chunks[0], chunks.drop_first())
        },
        FrameOutcome::Invalid => Seq::empty(),
    }
}

/// A codec whose outcome is a function of the buffered bytes alone: a parsed
/// frame lies within the bytes given, and neither a parsed frame nor a
/// protocol error changes when more bytes follow. A codec that carries
/// fragment state from one call to the next is not of this kind.
pub open spec fn codec_is_prefix_stable(codec: spec_fn(Seq<u8>) -> FrameOutcome) -> bool {
    &&& forall|b: Seq<u8>| #[trigger]
        codec(b) matches FrameOutcome::Parsed { consumed, .. } ==> 0 < consumed <= b.len()
    &&& forall|b: Seq<u8>, e: Seq<u8>| #[trigger]
        codec(b + e) != codec(b) ==> codec(b) is NeedMoreData
}

} // verus!
