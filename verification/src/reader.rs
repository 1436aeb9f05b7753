//! What a stream reader does with each frame that the transport delivers.

use vstd::prelude::*;

verus! {

/// A frame as a mathematical value.
pub enum FrameSpec {
    Text(Seq<char>),
    Ping(Seq<u8>),
    Pong,
    Close,
    Other,
    Failed,
}

/// What the transport delivered.
#[derive(Debug)]
pub enum Frame {
    /// A text message: an event of the exchange.
    Text(String),
    /// A keep-alive request with its payload.
    Ping(Vec<u8>),
    /// A keep-alive answer.
    Pong,
    /// The peer closes the connection.
    Close,
    /// Any other frame.
    Other,
    /// The connection failed.
    Failed,
}

impl View for Frame {
    type V = FrameSpec;

    open spec fn view(&self) -> FrameSpec {
        match self {
            Frame::Text(text) => FrameSpec::Text(text@),
            Frame::Ping(payload) => FrameSpec::Ping(payload@),
            Frame::Pong => FrameSpec::Pong,
            Frame::Close => FrameSpec::Close,
            Frame::Other => FrameSpec::Other,
            Frame::Failed => FrameSpec::Failed,
        }
    }
}

/// Why a reader stops.
#[derive(Clone, Copy, Debug, PartialEq, Eq, Structural)]
pub enum StopReason {
    /// The peer closed the connection.
    Closed,
    /// The connection failed.
    TransportError,
}

/// A step of a reader as a mathematical value.
pub enum ReaderStepSpec {
    Decode(Seq<char>),
    Reply(Seq<u8>),
    Continue,
    Stop(StopReason),
}

/// The next step of a reader.
#[derive(Debug)]
pub enum ReaderStep {
    /// Decode this text into an event and forward it; if it does not
    /// decode, report it and go on.
    Decode(String),
    /// Answer the keep-alive request with this payload and go on.
    Reply(Vec<u8>),
    /// Nothing to do: wait for the next frame.
    Continue,
    /// End this stream and tell the caller why.
    Stop(StopReason),
}

impl View for ReaderStep {
    type V = ReaderStepSpec;

    open spec fn view(&self) -> ReaderStepSpec {
        match self {
            ReaderStep::Decode(text) => ReaderStepSpec::Decode(text@),
            ReaderStep::Reply(payload) => ReaderStepSpec::Reply(payload@),
            ReaderStep::Continue => ReaderStepSpec::Continue,
            ReaderStep::Stop(reason) => ReaderStepSpec::Stop(*reason),
        }
    }
}

/// The step that a frame calls for: a text is decoded, a keep-alive request
/// is answered with its own payload, a close frame and a failure end the
/// stream, and anything else is passed over.
pub open spec fn step_for_frame(frame: FrameSpec) -> ReaderStepSpec {
    match frame {
        FrameSpec::Text(text) => ReaderStepSpec::Decode(text),
        FrameSpec::Ping(payload) => ReaderStepSpec::Reply(payload),
        FrameSpec::Pong => ReaderStepSpec::Continue,
        FrameSpec::Close => ReaderStepSpec::Stop(StopReason::Closed),
        FrameSpec::Other => ReaderStepSpec::Continue,
        FrameSpec::Failed => ReaderStepSpec::Stop(StopReason::TransportError),
    }
}

/// Decides what a reader does with a frame.
pub fn on_frame(frame: Frame) -> (step: ReaderStep)
    ensures
        step@ == step_for_frame(frame@),
{
    match frame {
        Frame::Text(text) => ReaderStep::Decode(text),
        Frame::Ping(payload) => ReaderStep::Reply(payload),
        Frame::Pong => ReaderStep::Continue,
        Frame::Close => ReaderStep::Stop(StopReason::Closed),
        Frame::Other => ReaderStep::Continue,
        Frame::Failed => ReaderStep::Stop(StopReason::TransportError),
    }
}

} // verus!
