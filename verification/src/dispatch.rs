//! Dispatching one submitted text: it is rendered, recorded in the history
//! and queued for every registered connection but the sender's.

use vstd::prelude::*;
use crate::history::{retained, HistoryBuffer};
use crate::registry::{addressees, without, ConnectionRegistry, Delivery, Registration};
use crate::text::{render, rendered};

verus! {

/// What one dispatch did.
pub struct Broadcast {
    /// The message as it was recorded and queued.
    pub message: String,
    /// The attempts to queue it, one for each connection addressed.
    pub deliveries: Vec<Delivery>,
}

/// Renders `text` as sent by the connection `sender_id`, appends the message
/// to `history` whether or not anyone is registered, and queues it for every
/// registration of `registry` that does not stand under `sender_key`. A
/// queue that refuses does not stop the others, and the sender is told of
/// neither.
pub fn dispatch(
    history: &mut HistoryBuffer,
    registry: &ConnectionRegistry,
    sender_key: &str,
    sender_id: usize,
    text: &str,
) -> (sent: Broadcast)
    ensures
        sent.message@ == rendered(sender_id, text@),
        final(history)@ == retained(old(history)@.push(rendered(sender_id, text@))),
        addressees(sent.deliveries@) == without(registry@, sender_key@),
        forall|e: Registration|
            #[trigger] addressees(sent.deliveries@).contains(e) <==> registry@.contains(e)
                && e.name != sender_key@,
{
    let message = render(sender_id, text);
    history.append(message.clone());
    let deliveries = registry.broadcast_except(sender_key, message.as_str());
    Broadcast { message, deliveries }
}

} // verus!
