//! The decision of a connection's writer after each frame it writes.
use vstd::prelude::*;
use crate::frame::{is_close_frame, is_close_payload};

verus! {

/// What the writer does after a write.
#[derive(Clone, Copy, Debug, PartialEq, Eq, Structural)]
pub enum WriterStep {
    /// Wait for the next queued frame.
    Continue,
    /// Stop: the frame was a close frame, or the write failed. The
    /// connection's registry entry is to be removed.
    Stop,
}

/// Whether the writer goes on after writing `message`, given whether the
/// write and flush succeeded.
pub fn after_write(written: bool, message: &Vec<u8>) -> (r: WriterStep)
    ensures
        r == (if written && !is_close_payload(message@) {
            WriterStep::Continue
        } else {
            WriterStep::Stop
        }),
{
    if written && !is_close_frame(message) {
        WriterStep::Continue
    } else {
        WriterStep::Stop
    }
}

} // verus!
