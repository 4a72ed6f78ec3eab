//! The outbound side of a connection: a queue of frames that a forwarding
//! loop drains onto the connection's transport.

use vstd::prelude::*;

verus! {

/// `tokio::sync::mpsc::UnboundedSender`, the sending end of a queue without
/// a bound. Nothing is known of what a value of it holds.
#[verifier::external_type_specification]
#[verifier::external_body]
#[verifier::reject_recursive_types(T)]
pub struct ExUnboundedSender<T>(tokio::sync::mpsc::UnboundedSender<T>);

/// `tokio::sync::mpsc::UnboundedReceiver`, the receiving end of such a queue.
/// Nothing is known of what a value of it holds.
#[verifier::external_type_specification]
#[verifier::external_body]
#[verifier::reject_recursive_types(T)]
pub struct ExUnboundedReceiver<T>(tokio::sync::mpsc::UnboundedReceiver<T>);

/// `warp::ws::Message`, one frame of a websocket. Nothing is known of what a
/// value of it holds.
#[verifier::external_type_specification]
#[verifier::external_body]
pub struct ExMessage(warp::ws::Message);

/// Calls `tokio::sync::mpsc::unbounded_channel`: a new queue without a bound,
/// as its sending and its receiving end. Nothing is claimed of the two ends.
#[verifier::external_body]
fn open_queue() -> (ends: (
    tokio::sync::mpsc::UnboundedSender<warp::ws::Message>,
    tokio::sync::mpsc::UnboundedReceiver<warp::ws::Message>,
)) {
    tokio::sync::mpsc::unbounded_channel()
}

/// Calls `warp::ws::Message::text`: the text frame that holds `text`.
/// Nothing is claimed of the frame, which verified code only hands on.
#[verifier::external_body]
fn text_frame(text: &str) -> (frame: warp::ws::Message) {
    warp::ws::Message::text(text)
}

/// Calls `tokio::sync::mpsc::UnboundedSender::send`, which never waits, and
/// reports whether the queue took the frame. It does unless the receiving
/// end was closed or dropped; that lies with the other end, so nothing is
/// claimed of the result. tokio ends the process should the count of frames
/// in one queue ever overflow.
#[verifier::external_body]
fn send_frame(
    queue: &tokio::sync::mpsc::UnboundedSender<warp::ws::Message>,
    frame: warp::ws::Message,
) -> (taken: bool) {
    queue.send(frame).is_ok()
}

/// The sending end of one connection's outbound queue, with the identifier
/// of the connection that owns the receiving end.
pub struct OutboundHandle {
    owner: usize,
    queue: tokio::sync::mpsc::UnboundedSender<warp::ws::Message>,
}

impl OutboundHandle {
    /// The connection whose transport the queue feeds.
    pub closed spec fn owner(&self) -> usize {
        self.owner
    }

    /// Opens the outbound queue of the connection `owner`: the handle that
    /// feeds it, and the receiving end for the loop that forwards what is
    /// queued to the connection's transport. That loop ends once the handle
    /// is dropped and the queue is drained.
    pub fn open(owner: usize) -> (ends: (
        OutboundHandle,
        tokio::sync::mpsc::UnboundedReceiver<warp::ws::Message>,
    ))
        ensures
            ends.0.owner() == owner,
    {
        let (queue, inbox) = open_queue();
        (OutboundHandle { owner, queue }, inbox)
    }

    pub fn owner_id(&self) -> (id: usize)
        ensures
            id == self.owner(),
    {
        self.owner
    }

    /// Queues `text` as one text frame. Returns whether the queue took it;
    /// it refuses only when the receiving end is gone.
    pub fn enqueue(&self, text: &str) -> (taken: bool) {
        send_frame(&self.queue, text_frame(text))
    }
}

} // verus!
