//! One connection's session, from the handshake to its teardown.
//!
//! A session only decides. Whoever drives it reads the transport, hands each
//! read to the session as an `Inbound`, and writes to the transport what the
//! session gives back.

use vstd::prelude::*;
use crate::dispatch::{dispatch, Broadcast};
use crate::history::{retained, HistoryBuffer};
use crate::ids::IdAllocator;
use crate::outbound::OutboundHandle;
use crate::registry::{
    addressees, distinct_names, handles_without, holds, lemma_register_replaces,
    lemma_register_then_unregister, lemma_unregister_idempotent, owner_of, registered, without,
    ConnectionRegistry, Registration,
};
use crate::text::{
    header_line, history_header, placeholder, placeholder_name, rendered, texts, welcome,
    welcome_line,
};

verus! {

/// What a frame of the transport holds, as far as a session reads it.
pub enum Frame {
    /// A text frame and its text.
    Text(String),
    /// Any frame that is not text.
    Other,
}

/// What one read of a connection's transport gave.
pub enum Inbound {
    /// A frame arrived.
    Frame(Frame),
    /// The read failed.
    Failed,
    /// The stream ended.
    Closed,
}

/// Where a session stands.
#[derive(Clone, Copy, PartialEq, Eq, Structural, Debug)]
pub enum Phase {
    /// The handshake is done and the identifier is allocated.
    Connecting,
    /// The session waits for the one read that names the connection.
    Naming,
    /// The name is settled; the connection is greeted and about to join.
    Registered,
    /// The connection is registered and its texts are relayed.
    Relaying,
    /// The session is over and its name is unregistered.
    Disconnected,
}

/// What a session did with one read while relaying.
pub enum Step {
    /// A text was dispatched.
    Relayed(Broadcast),
    /// A frame that is not text was dropped.
    Ignored,
    /// The read failed or the stream ended: the session is over.
    Left,
}

/// A session as contracts see it.
pub struct SessionView {
    pub id: usize,
    pub name: Seq<char>,
    pub phase: Phase,
}

/// The display name that the naming read settles: the text of a text frame,
/// or the placeholder where that text is empty or no text came.
pub open spec fn chosen_name(event: Inbound) -> Seq<char> {
    match event {
        Inbound::Frame(Frame::Text(text)) => if text@.len() == 0 {
            placeholder_name()
        } else {
            text@
        },
        _ => placeholder_name(),
    }
}

/// What a connection named `name` is sent on joining: the welcome, and,
/// unless the history is empty, the header and each message held, one by one.
pub open spec fn greeting(name: Seq<char>, history: Seq<Seq<char>>) -> Seq<Seq<char>> {
    if history.len() == 0 {
        seq![welcome(name)]
    } else {
        seq![welcome(name), history_header()] + history
    }
}

/// Whether a read ends a session that relays: every read but a frame does.
pub open spec fn ends_session(event: Inbound) -> bool {
    !(event is Frame)
}

/// The registrations after a session that relays under `name` took one read.
pub open spec fn after_read(entries: Seq<Registration>, name: Seq<char>, event: Inbound) -> Seq<
    Registration,
> {
    if ends_session(event) {
        without(entries, name)
    } else {
        entries
    }
}

/// The registrations after a session that relays under `name` took `reads`
/// one by one. It takes none after the read that ends it.
pub open spec fn after_reads(
    entries: Seq<Registration>,
    name: Seq<char>,
    reads: Seq<Inbound>,
) -> Seq<Registration>
    decreases reads.len(),
{
    if reads.len() == 0 {
        entries
    } else if ends_session(reads.first()) {
        after_read(entries, name, reads.first())
    } else {
        after_reads(after_read(entries, name, reads.first()), name, reads.drop_first())
    }
}

/// How often a session that relays unregisters its name while it takes
/// `reads` one by one.
pub open spec fn removals(reads: Seq<Inbound>) -> nat
    decreases reads.len(),
{
    if reads.len() == 0 {
        0
    } else if ends_session(reads.first()) {
        1
    } else {
        removals(reads.drop_first())
    }
}

/// However the reads of a session go, it unregisters its name at most once:
/// at the first read that ends it, if there is one, and at no read before.
/// Until then the registrations are as the session found them, from then
/// on they are those without its name.
pub proof fn lemma_reads_unregister_once(
    entries: Seq<Registration>,
    name: Seq<char>,
    reads: Seq<Inbound>,
)
    ensures
        removals(reads) <= 1,
        removals(reads) == 1 <==> exists|i: int|
            0 <= i < reads.len() && ends_session(#[trigger] reads[i]),
        after_reads(entries, name, reads) == if removals(reads) == 1 {
            without(entries, name)
        } else {
            entries
        },
    decreases reads.len(),
{
    if reads.len() > 0 {
        let rest = reads.drop_first();
        lemma_reads_unregister_once(entries, name, rest);
        if ends_session(reads.first()) {
            assert(ends_session(reads[0]));
        } else {
            if removals(rest) == 1 {
                let i = choose|i: int| 0 <= i < rest.len() && ends_session(#[trigger] rest[i]);
                assert(ends_session(reads[i + 1]));
            }
            if exists|i: int| 0 <= i < reads.len() && ends_session(#[trigger] reads[i]) {
                let i = choose|i: int| 0 <= i < reads.len() && ends_session(#[trigger] reads[i]);
                assert(ends_session(rest[i - 1]));
            }
        }
    }
}

/// A session registers its name once, on joining, and unregisters it at
/// most once, at the read that ends it. After that read the registrations
/// are what they were before it joined, but for what stood under its name;
/// until then they are what its joining made them.
pub proof fn lemma_session_joins_once_and_leaves_once(
    entries: Seq<Registration>,
    name: Seq<char>,
    id: usize,
    reads: Seq<Inbound>,
)
    requires
        distinct_names(entries),
    ensures
        removals(reads) <= 1,
        removals(reads) == 1 <==> exists|i: int|
            0 <= i < reads.len() && ends_session(#[trigger] reads[i]),
        after_reads(registered(entries, name, id), name, reads) == if removals(reads) == 1 {
            without(entries, name)
        } else {
            registered(entries, name, id)
        },
        removals(reads) == 1 ==> !holds(
            after_reads(registered(entries, name, id), name, reads),
            name,
        ),
        removals(reads) == 0 ==> owner_of(
            after_reads(registered(entries, name, id), name, reads),
            name,
        ) == Some(id),
{
    lemma_reads_unregister_once(registered(entries, name, id), name, reads);
    lemma_register_then_unregister(entries, name, id);
    lemma_register_replaces(entries, name, id);
    lemma_unregister_idempotent(entries, name);
}

/// The state of one connection's session.
pub struct Session {
    id: usize,
    name: String,
    phase: Phase,
}

impl View for Session {
    type V = SessionView;

    closed spec fn view(&self) -> SessionView {
        SessionView { id: self.id, name: self.name@, phase: self.phase }
    }
}

impl Session {
    /// Starts the session of a new connection under the next identifier.
    pub fn connect(ids: &mut IdAllocator) -> (session: Self)
        ensures
            session@.id == old(ids).upcoming(),
            session@.name == Seq::<char>::empty(),
            session@.phase == Phase::Connecting,
            final(ids).upcoming() == IdAllocator::successor(old(ids).upcoming()),
    {
        let id = ids.next_id();
        Session { id, name: String::new(), phase: Phase::Connecting }
    }

    pub fn id(&self) -> (id: usize)
        ensures
            id == self@.id,
    {
        self.id
    }

    /// The display name; empty until the naming read settled it.
    pub fn name(&self) -> (name: &str)
        ensures
            name@ == self@.name,
    {
        self.name.as_str()
    }

    pub fn phase(&self) -> (phase: Phase)
        ensures
            phase == self@.phase,
    {
        self.phase
    }

    /// Begins to wait for the read that names the connection.
    pub fn await_name(&mut self)
        requires
            old(self)@.phase == Phase::Connecting,
        ensures
            final(self)@ == (SessionView { phase: Phase::Naming, ..old(self)@ }),
    {
        self.phase = Phase::Naming;
    }

    /// Settles the display name from the naming read and returns the lines
    /// of the greeting, to be written to the connection one by one. A read
    /// that gave no text does not end the session: the name is then the
    /// placeholder.
    pub fn name_received(&mut self, event: Inbound, history: &HistoryBuffer) -> (lines: Vec<
        String,
    >)
        requires
            old(self)@.phase == Phase::Naming,
        ensures
            final(self)@ == (SessionView {
                name: chosen_name(event),
                phase: Phase::Registered,
                ..old(self)@
            }),
            final(self)@.name.len() > 0,
            texts(lines@) == greeting(chosen_name(event), history@),
            lines@.len() == greeting(chosen_name(event), history@).len(),
    {
        let name = match event {
            Inbound::Frame(Frame::Text(text)) => {
                if text.as_str().is_empty() {
                    placeholder()
                } else {
                    text
                }
            },
            _ => placeholder(),
        };
        let mut lines: Vec<String> = Vec::new();
        lines.push(welcome_line(name.as_str()));
        if !history.is_empty() {
            lines.push(header_line());
            let mut held = history.snapshot();
            let ghost greeted = lines@;
            lines.append(&mut held);
            assert(texts(lines@) =~= texts(greeted) + history@);
        }
        assert(texts(lines@) =~= greeting(name@, history@));
        self.name = name;
        self.phase = Phase::Registered;
        lines
    }

    /// Opens the connection's outbound queue and registers its handle under
    /// the display name, in place of a handle that stood there. Every other
    /// name keeps its handle. Returns the queue's receiving end, for the
    /// loop that forwards to the transport.
    pub fn join(&mut self, registry: &mut ConnectionRegistry) -> (inbox:
        tokio::sync::mpsc::UnboundedReceiver<warp::ws::Message>)
        requires
            old(self)@.phase == Phase::Registered,
        ensures
            final(self)@ == (SessionView { phase: Phase::Relaying, ..old(self)@ }),
            final(registry)@ == registered(old(registry)@, old(self)@.name, old(self)@.id),
            owner_of(final(registry)@, old(self)@.name) == Some(old(self)@.id),
            final(registry).handles().len() == final(registry)@.len(),
            forall|i: int|
                0 <= i < final(registry)@.len()
                    && (#[trigger] final(registry)@[i]).name == old(self)@.name
                    ==> final(registry).handles()[i].owner() == old(self)@.id,
            forall|i: int|
                0 <= i < final(registry)@.len() && i < old(registry)@.len()
                    && (#[trigger] final(registry)@[i]).name != old(self)@.name
                    ==> final(registry).handles()[i] == old(registry).handles()[i],
    {
        let (handle, inbox) = OutboundHandle::open(self.id);
        let _ = registry.register(self.name.clone(), handle);
        self.phase = Phase::Relaying;
        inbox
    }

    /// Relays one frame of a connection that is registered: a text is
    /// dispatched under the session's name and identifier, any other frame
    /// is dropped.
    pub fn relay(
        &self,
        frame: Frame,
        history: &mut HistoryBuffer,
        registry: &ConnectionRegistry,
    ) -> (sent: Option<Broadcast>)
        ensures
            match frame {
                Frame::Text(text) => {
                    &&& sent is Some
                    &&& sent->0.message@ == rendered(self@.id, text@)
                    &&& addressees(sent->0.deliveries@) == without(registry@, self@.name)
                    &&& final(history)@ == retained(
                        old(history)@.push(rendered(self@.id, text@)),
                    )
                },
                Frame::Other => sent is None && final(history)@ == old(history)@,
            },
    {
        match frame {
            Frame::Text(text) => Some(
                dispatch(history, registry, self.name.as_str(), self.id, text.as_str()),
            ),
            Frame::Other => None,
        }
    }

    /// Ends the session: what stands under its display name is unregistered,
    /// and every other name keeps its handle. A session that is over already
    /// changes nothing, so the name is unregistered once however often this
    /// is called.
    pub fn disconnect(&mut self, registry: &mut ConnectionRegistry)
        requires
            old(self)@.phase == Phase::Relaying || old(self)@.phase == Phase::Disconnected,
        ensures
            final(self)@ == (SessionView { phase: Phase::Disconnected, ..old(self)@ }),
            final(registry)@ == if old(self)@.phase == Phase::Relaying {
                without(old(registry)@, old(self)@.name)
            } else {
                old(registry)@
            },
            old(self)@.phase == Phase::Relaying ==> !holds(final(registry)@, old(self)@.name),
            if old(self)@.phase == Phase::Relaying {
                handles_without(
                    old(registry)@,
                    old(registry).handles(),
                    final(registry).handles(),
                    old(self)@.name,
                )
            } else {
                final(registry).handles() == old(registry).handles()
            },
    {
        if self.phase == Phase::Relaying {
            let _ = registry.unregister(self.name.as_str());
            self.phase = Phase::Disconnected;
        }
    }

    /// Takes one read while relaying. A frame is relayed and the session
    /// goes on; a failed read or the end of the stream ends it.
    pub fn on_inbound(
        &mut self,
        event: Inbound,
        history: &mut HistoryBuffer,
        registry: &mut ConnectionRegistry,
    ) -> (step: Step)
        requires
            old(self)@.phase == Phase::Relaying,
        ensures
            final(registry)@ == after_read(old(registry)@, old(self)@.name, event),
            (final(self)@.phase == Phase::Disconnected) == ends_session(event),
            match event {
                Inbound::Frame(Frame::Text(text)) => {
                    &&& step matches Step::Relayed(sent)
                    &&& sent.message@ == rendered(old(self)@.id, text@)
                    &&& addressees(sent.deliveries@) == without(old(registry)@, old(self)@.name)
                    &&& final(history)@ == retained(
                        old(history)@.push(rendered(old(self)@.id, text@)),
                    )
                    &&& final(registry)@ == old(registry)@
                    &&& final(registry).handles() == old(registry).handles()
                    &&& final(self)@ == old(self)@
                },
                Inbound::Frame(Frame::Other) => {
                    &&& step is Ignored
                    &&& final(history)@ == old(history)@
                    &&& final(registry)@ == old(registry)@
                    &&& final(registry).handles() == old(registry).handles()
                    &&& final(self)@ == old(self)@
                },
                _ => {
                    &&& step is Left
                    &&& final(history)@ == old(history)@
                    &&& final(registry)@ == without(old(registry)@, old(self)@.name)
                    &&& !holds(final(registry)@, old(self)@.name)
                    &&& handles_without(
                        old(registry)@,
                        old(registry).handles(),
                        final(registry).handles(),
                        old(self)@.name,
                    )
                    &&& final(self)@ == (SessionView { phase: Phase::Disconnected, ..old(self)@ })
                },
            },
    {
        match event {
            Inbound::Frame(frame) => match self.relay(frame, history, &*registry) {
                Some(sent) => Step::Relayed(sent),
                None => Step::Ignored,
            },
            _ => {
                self.disconnect(registry);
                Step::Left
            },
        }
    }
}

} // verus!
