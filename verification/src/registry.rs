//! The registry of the connections that receive broadcasts.

use vstd::prelude::*;
use crate::outbound::OutboundHandle;
use crate::text::same_text;

verus! {

/// One registration: the display name it stands under, and the connection
/// that owns the handle registered there.
pub struct Registration {
    pub name: Seq<char>,
    pub owner: usize,
}

/// Whether some registration stands under `key`.
pub open spec fn holds(entries: Seq<Registration>, key: Seq<char>) -> bool {
    exists|i: int| 0 <= i < entries.len() && (#[trigger] entries[i]).name == key
}

/// No two registrations stand under one name.
pub open spec fn distinct_names(entries: Seq<Registration>) -> bool {
    forall|i: int, j: int|
        0 <= i < j < entries.len() ==> (#[trigger] entries[i]).name != (#[trigger] entries[j]).name
}

/// The owner of the handle registered under `key`, if there is one.
pub open spec fn owner_of(entries: Seq<Registration>, key: Seq<char>) -> Option<usize> {
    if holds(entries, key) {
        let i = choose|i: int| 0 <= i < entries.len() && (#[trigger] entries[i]).name == key;
        Some(entries[i].owner)
    } else {
        None
    }
}

/// The registrations that do not stand under `key`, in their order. They are
/// what is left when `key` leaves, and whom a broadcast by `key` addresses.
pub open spec fn without(entries: Seq<Registration>, key: Seq<char>) -> Seq<Registration> {
    entries.filter(|e: Registration| e.name != key)
}

/// The registrations after a handle of `owner` was registered under `key`:
/// it takes the place of the one that stood there, or else comes last.
pub open spec fn registered(entries: Seq<Registration>, key: Seq<char>, owner: usize) -> Seq<
    Registration,
> {
    if holds(entries, key) {
        entries.map_values(
            |e: Registration|
                if e.name == key {
                    Registration { name: key, owner }
                } else {
                    e
                },
        )
    } else {
        entries.push(Registration { name: key, owner })
    }
}

/// Whether `after` are the handles `before`, which stand one for each of
/// `entries`, with the one under `key` taken out; or `before` as they are,
/// where nothing stands under `key`.
pub open spec fn handles_without(
    entries: Seq<Registration>,
    before: Seq<OutboundHandle>,
    after: Seq<OutboundHandle>,
    key: Seq<char>,
) -> bool {
    if holds(entries, key) {
        exists|at: int|
            0 <= at < entries.len() && (#[trigger] entries[at]).name == key && after
                == before.remove(at)
    } else {
        after == before
    }
}

/// Where nothing stands under `key`, nothing leaves with it.
pub proof fn lemma_without_absent(entries: Seq<Registration>, key: Seq<char>)
    requires
        !holds(entries, key),
    ensures
        without(entries, key) == entries,
    decreases entries.len(),
{
    reveal(Seq::filter);
    if entries.len() > 0 {
        let rest = entries.drop_last();
        assert forall|i: int| 0 <= i < rest.len() implies (#[trigger] rest[i]).name != key by {
            assert(entries[i].name != key);
        }
        lemma_without_absent(rest, key);
        assert(entries.last().name != key);
        assert(rest.push(entries.last()) =~= entries);
    }
}

/// Under distinct names, what is left without `key` is the registrations
/// with the one at `key` taken out.
pub proof fn lemma_without_present(entries: Seq<Registration>, key: Seq<char>, at: int)
    requires
        distinct_names(entries),
        0 <= at < entries.len(),
        entries[at].name == key,
    ensures
        without(entries, key) == entries.remove(at),
    decreases entries.len(),
{
    reveal(Seq::filter);
    let rest = entries.drop_last();
    if at == entries.len() - 1 {
        assert forall|i: int| 0 <= i < rest.len() implies (#[trigger] rest[i]).name != key by {
            assert(entries[i].name != entries[at].name);
        }
        lemma_without_absent(rest, key);
        assert(rest =~= entries.remove(at));
    } else {
        assert(distinct_names(rest)) by {
            assert forall|i: int, j: int| 0 <= i < j < rest.len() implies (#[trigger] rest[i]).name
                != (#[trigger] rest[j]).name by {
                assert(entries[i].name != entries[j].name);
            }
        }
        assert(rest[at] == entries[at]);
        lemma_without_present(rest, key, at);
        assert(entries[at].name != entries[entries.len() - 1].name);
        assert(rest.remove(at).push(entries.last()) =~= entries.remove(at));
    }
}

/// A broadcast by `sender` addresses exactly the registrations that stand
/// under another name, and none that stands under `sender`.
pub proof fn lemma_broadcast_reaches_others(entries: Seq<Registration>, sender: Seq<char>)
    ensures
        forall|e: Registration|
            #[trigger] without(entries, sender).contains(e) <==> entries.contains(e) && e.name
                != sender,
{
    let pred = |e: Registration| e.name != sender;
    assert forall|e: Registration| #[trigger]
        without(entries, sender).contains(e) <==> entries.contains(e) && e.name != sender by {
        if without(entries, sender).contains(e) {
            entries.lemma_filter_contains_rev(pred, e);
            let i = choose|i: int|
                0 <= i < entries.filter(pred).len() && entries.filter(pred)[i] == e;
            entries.lemma_filter_pred(pred, i);
        }
        if entries.contains(e) && e.name != sender {
            let i = choose|i: int| 0 <= i < entries.len() && entries[i] == e;
            entries.lemma_filter_contains(pred, i);
        }
    }
}

/// Taking a registration out leaves the names distinct.
pub proof fn lemma_remove_keeps_distinct(entries: Seq<Registration>, at: int)
    requires
        distinct_names(entries),
        0 <= at < entries.len(),
    ensures
        distinct_names(entries.remove(at)),
{
    let after = entries.remove(at);
    assert forall|i: int, j: int| 0 <= i < j < after.len() implies (#[trigger] after[i]).name != (
    #[trigger] after[j]).name by {
        let i0 = if i < at { i } else { i + 1 };
        let j0 = if j < at { j } else { j + 1 };
        assert(entries[i0].name != entries[j0].name);
    }
}

/// Under distinct names, the registration at `key` names its owner.
pub proof fn lemma_owner_at(entries: Seq<Registration>, key: Seq<char>, at: int)
    requires
        distinct_names(entries),
        0 <= at < entries.len(),
        entries[at].name == key,
    ensures
        holds(entries, key),
        owner_of(entries, key) == Some(entries[at].owner),
{
    let i = choose|i: int| 0 <= i < entries.len() && (#[trigger] entries[i]).name == key;
    if i < at {
        assert(entries[i].name != entries[at].name);
    } else if at < i {
        assert(entries[at].name != entries[i].name);
    }
}

/// Registering under a name replaces what stood there and touches nothing
/// else: afterwards the name leads to the new owner alone, every other name
/// leads where it led, and names are still distinct. Every later broadcast
/// addresses current registrations only, so the handle that was replaced is
/// addressed no more.
pub proof fn lemma_register_replaces(entries: Seq<Registration>, key: Seq<char>, owner: usize)
    requires
        distinct_names(entries),
    ensures
        distinct_names(registered(entries, key, owner)),
        owner_of(registered(entries, key, owner), key) == Some(owner),
        forall|other: Seq<char>|
            other != key ==> #[trigger] owner_of(registered(entries, key, owner), other)
                == owner_of(entries, other),
        forall|e: Registration|
            #[trigger] registered(entries, key, owner).contains(e) && e.name == key ==> e.owner
                == owner,
        registered(entries, key, owner).len() == if holds(entries, key) {
            entries.len()
        } else {
            entries.len() + 1
        },
{
    let after = registered(entries, key, owner);
    assert forall|i: int| 0 <= i < after.len() && i < entries.len() implies (#[trigger] after[i]).name
        == entries[i].name by {}
    assert(distinct_names(after)) by {
        assert forall|i: int, j: int| 0 <= i < j < after.len() implies (#[trigger] after[i]).name
            != (#[trigger] after[j]).name by {
            if j < entries.len() {
                assert(entries[i].name != entries[j].name);
            } else {
                assert(entries[i].name != key);
            }
        }
    }
    let at = if holds(entries, key) {
        choose|i: int| 0 <= i < entries.len() && (#[trigger] entries[i]).name == key
    } else {
        entries.len() as int
    };
    assert(after[at].name == key && after[at].owner == owner);
    lemma_owner_at(after, key, at);
    assert forall|other: Seq<char>| other != key implies #[trigger] owner_of(after, other)
        == owner_of(entries, other) by {
        if holds(entries, other) {
            let i = choose|i: int| 0 <= i < entries.len() && (#[trigger] entries[i]).name == other;
            assert(after[i] == entries[i]);
            lemma_owner_at(entries, other, i);
            lemma_owner_at(after, other, i);
        } else if holds(after, other) {
            let i = choose|i: int| 0 <= i < after.len() && (#[trigger] after[i]).name == other;
            assert(i < entries.len());
            assert(entries[i].name == other);
        }
    }
    assert forall|e: Registration| #[trigger] after.contains(e) && e.name == key implies e.owner
        == owner by {
        let i = choose|i: int| 0 <= i < after.len() && after[i] == e;
        if i != at {
            if i < at {
                assert(after[i].name != after[at].name);
            } else {
                assert(after[at].name != after[i].name);
            }
        }
    }
}

/// Registering under a name and then unregistering it leaves what
/// unregistering alone would have left.
pub proof fn lemma_register_then_unregister(
    entries: Seq<Registration>,
    key: Seq<char>,
    owner: usize,
)
    requires
        distinct_names(entries),
    ensures
        without(registered(entries, key, owner), key) == without(entries, key),
{
    let after = registered(entries, key, owner);
    lemma_register_replaces(entries, key, owner);
    if holds(entries, key) {
        let at = choose|i: int| 0 <= i < entries.len() && (#[trigger] entries[i]).name == key;
        assert(after[at].name == key);
        lemma_without_present(after, key, at);
        lemma_without_present(entries, key, at);
        assert forall|i: int| 0 <= i < entries.len() && i != at implies after[i]
            == entries[i] by {
            if i < at {
                assert(entries[i].name != entries[at].name);
            } else {
                assert(entries[at].name != entries[i].name);
            }
        }
        assert(after.remove(at) =~= entries.remove(at));
    } else {
        entries.lemma_filter_push(
            Registration { name: key, owner },
            |e: Registration| e.name != key,
        );
    }
}

/// Unregistering a name under which nothing stands changes nothing, and
/// unregistering twice is unregistering once.
pub proof fn lemma_unregister_idempotent(entries: Seq<Registration>, key: Seq<char>)
    ensures
        !holds(entries, key) ==> without(entries, key) == entries,
        !holds(without(entries, key), key),
        without(without(entries, key), key) == without(entries, key),
{
    if !holds(entries, key) {
        lemma_without_absent(entries, key);
    }
    lemma_broadcast_reaches_others(entries, key);
    let left = without(entries, key);
    assert forall|i: int| 0 <= i < left.len() implies (#[trigger] left[i]).name != key by {
        assert(left.contains(left[i]));
    }
    lemma_without_absent(left, key);
}

/// One attempt of a broadcast to queue its message for a recipient.
pub struct Delivery {
    /// The name under which the recipient is registered.
    pub recipient: String,
    /// The connection that owns the recipient's handle.
    pub owner: usize,
    /// Whether the recipient's queue took the message. It refuses once its
    /// receiving end is gone.
    pub accepted: bool,
}

impl Delivery {
    /// The record of one attempt to queue a message for the handle of
    /// `owner` registered under `recipient`, given what its queue answered.
    pub fn attempt(recipient: &str, owner: usize, accepted: bool) -> (delivery: Delivery)
        ensures
            delivery.recipient@ == recipient@,
            delivery.owner == owner,
            delivery.accepted == accepted,
    {
        Delivery { recipient: recipient.to_owned(), owner, accepted }
    }
}

/// Whom the attempts of `report` addressed, in order.
pub open spec fn addressees(report: Seq<Delivery>) -> Seq<Registration> {
    report.map_values(|d: Delivery| Registration { name: d.recipient@, owner: d.owner })
}

struct Entry {
    name: String,
    handle: OutboundHandle,
}

impl Entry {
    spec fn registration(&self) -> Registration {
        Registration { name: self.name@, owner: self.handle.owner() }
    }
}

spec fn registrations(entries: Seq<Entry>) -> Seq<Registration> {
    entries.map_values(|e: Entry| e.registration())
}

fn position(entries: &Vec<Entry>, key: &str) -> (found: Option<usize>)
    ensures
        match found {
            Some(at) => at < entries@.len() && entries@[at as int].name@ == key@,
            None => !holds(registrations(entries@), key@),
        },
{
    let mut i: usize = 0;
    while i < entries.len()
        invariant
            i <= entries@.len(),
            forall|j: int| 0 <= j < i ==> (#[trigger] entries@[j]).name@ != key@,
        decreases entries@.len() - i,
    {
        if same_text(entries[i].name.as_str(), key) {
            return Some(i);
        }
        i += 1;
    }
    assert forall|j: int| 0 <= j < registrations(entries@).len() implies (
    #[trigger] registrations(entries@)[j]).name != key@ by {
        assert(entries@[j].name@ != key@);
    }
    None
}

/// The connections that receive broadcasts, each under its display name. No
/// two stand under one name.
pub struct ConnectionRegistry {
    entries: Vec<Entry>,
}

impl View for ConnectionRegistry {
    type V = Seq<Registration>;

    closed spec fn view(&self) -> Seq<Registration> {
        registrations(self.entries@)
    }
}

impl ConnectionRegistry {
    #[verifier::type_invariant]
    spec fn names_are_distinct(&self) -> bool {
        distinct_names(registrations(self.entries@))
    }

    /// The handle of each registration, in the registry's order.
    pub closed spec fn handles(&self) -> Seq<OutboundHandle> {
        self.entries@.map_values(|e: Entry| e.handle)
    }

    pub fn new() -> (registry: Self)
        ensures
            registry@ == Seq::<Registration>::empty(),
            registry.handles() == Seq::<OutboundHandle>::empty(),
    {
        let registry = ConnectionRegistry { entries: Vec::new() };
        assert(registry@ =~= Seq::<Registration>::empty());
        assert(registry.handles() =~= Seq::<OutboundHandle>::empty());
        registry
    }

    /// The number of registrations.
    pub fn len(&self) -> (n: usize)
        ensures
            n == self@.len(),
            n == self.handles().len(),
            distinct_names(self@),
            forall|i: int|
                0 <= i < self@.len() ==> (#[trigger] self@[i]).owner == self.handles()[i].owner(),
    {
        proof {
            use_type_invariant(self);
        }
        self.entries.len()
    }

    pub fn is_empty(&self) -> (empty: bool)
        ensures
            empty == (self@.len() == 0),
    {
        self.entries.len() == 0
    }

    /// The owner of the handle registered under `key`, if there is one.
    pub fn lookup(&self, key: &str) -> (owner: Option<usize>)
        ensures
            owner == owner_of(self@, key@),
    {
        proof {
            use_type_invariant(self);
        }
        match position(&self.entries, key) {
            Some(at) => {
                proof {
                    lemma_owner_at(self@, key@, at as int);
                }
                Some(self.entries[at].handle.owner_id())
            },
            None => None,
        }
    }

    /// Whether a handle is registered under `key`.
    pub fn contains(&self, key: &str) -> (present: bool)
        ensures
            present == holds(self@, key@),
    {
        match position(&self.entries, key) {
            Some(at) => {
                assert(self@[at as int].name == key@);
                true
            },
            None => false,
        }
    }

    /// Registers `handle` under `key`. A handle that stood there is replaced
    /// and returned; it is addressed by no later broadcast. Every other
    /// name keeps its handle.
    pub fn register(&mut self, key: String, handle: OutboundHandle) -> (replaced: Option<
        OutboundHandle,
    >)
        ensures
            final(self)@ == registered(old(self)@, key@, handle.owner()),
            distinct_names(final(self)@),
            owner_of(final(self)@, key@) == Some(handle.owner()),
            forall|other: Seq<char>|
                other != key@ ==> #[trigger] owner_of(final(self)@, other) == owner_of(
                    old(self)@,
                    other,
                ),
            final(self).handles().len() == final(self)@.len(),
            forall|i: int|
                0 <= i < final(self)@.len() && (#[trigger] final(self)@[i]).name == key@
                    ==> final(self).handles()[i] == handle,
            forall|i: int|
                0 <= i < final(self)@.len() && i < old(self)@.len() && (
                #[trigger] final(self)@[i]).name != key@ ==> final(self).handles()[i]
                    == old(self).handles()[i],
            match replaced {
                Some(prior) => {
                    &&& owner_of(old(self)@, key@) == Some(prior.owner())
                    &&& exists|i: int|
                        0 <= i < old(self)@.len() && (#[trigger] old(self)@[i]).name == key@
                            && old(self).handles()[i] == prior
                },
                None => !holds(old(self)@, key@),
            },
    {
        proof {
            use_type_invariant(&*self);
            lemma_register_replaces(old(self)@, key@, handle.owner());
        }
        let mut entries: Vec<Entry> = Vec::new();
        core::mem::swap(&mut self.entries, &mut entries);
        let found = position(&entries, key.as_str());
        let ghost before = registrations(entries@);
        entries.push(Entry { name: key, handle });
        let replaced = match found {
            Some(at) => {
                proof {
                    assert(before[at as int].name == key@);
                    lemma_owner_at(before, key@, at as int);
                }
                let prior = entries.swap_remove(at);
                assert(registrations(entries@) =~= registered(before, key@, handle.owner())) by {
                    assert forall|i: int| 0 <= i < before.len() && i != at implies (
                    #[trigger] before[i]).name != key@ by {
                        if i < at {
                            assert(before[i].name != before[at as int].name);
                        } else {
                            assert(before[at as int].name != before[i].name);
                        }
                    }
                }
                Some(prior.handle)
            },
            None => {
                assert(registrations(entries@) =~= registered(before, key@, handle.owner()));
                None
            },
        };
        core::mem::swap(&mut self.entries, &mut entries);
        replaced
    }

    /// Removes what is registered under `key`, and says whether anything
    /// was. Where nothing is, the registry stays as it is. Every other name
    /// keeps its handle.
    pub fn unregister(&mut self, key: &str) -> (removed: bool)
        ensures
            final(self)@ == without(old(self)@, key@),
            removed == holds(old(self)@, key@),
            !removed ==> final(self)@ == old(self)@,
            !holds(final(self)@, key@),
            distinct_names(final(self)@),
            final(self).handles().len() == final(self)@.len(),
            !removed ==> final(self).handles() == old(self).handles(),
            removed ==> exists|at: int|
                0 <= at < old(self)@.len() && (#[trigger] old(self)@[at]).name == key@
                    && final(self).handles() == old(self).handles().remove(at),
            handles_without(old(self)@, old(self).handles(), final(self).handles(), key@),
    {
        proof {
            use_type_invariant(&*self);
            lemma_unregister_idempotent(self@, key@);
        }
        let mut entries: Vec<Entry> = Vec::new();
        core::mem::swap(&mut self.entries, &mut entries);
        let found = position(&entries, key);
        let ghost before = registrations(entries@);
        let removed = match found {
            Some(at) => {
                let ghost held = entries@;
                entries.remove(at);
                proof {
                    assert(before[at as int].name == key@);
                    assert(registrations(entries@) =~= before.remove(at as int));
                    assert(entries@.map_values(|e: Entry| e.handle) =~= held.map_values(
                        |e: Entry| e.handle,
                    ).remove(at as int));
                    lemma_without_present(before, key@, at as int);
                    lemma_remove_keeps_distinct(before, at as int);
                }
                true
            },
            None => {
                proof {
                    lemma_without_absent(before, key@);
                }
                false
            },
        };
        core::mem::swap(&mut self.entries, &mut entries);
        removed
    }

    /// Queues `message` for every registration that does not stand under
    /// `sender_key`, in the registry's order, and reports each attempt. A
    /// queue that refuses is reported and otherwise passed over.
    pub fn broadcast_except(&self, sender_key: &str, message: &str) -> (report: Vec<Delivery>)
        ensures
            addressees(report@) == without(self@, sender_key@),
            report@.len() == without(self@, sender_key@).len(),
            forall|e: Registration|
                #[trigger] addressees(report@).contains(e) <==> self@.contains(e) && e.name
                    != sender_key@,
    {
        let mut report: Vec<Delivery> = Vec::new();
        let mut i: usize = 0;
        assert(self@.take(0) =~= Seq::<Registration>::empty());
        assert(addressees(report@) =~= without(self@.take(0), sender_key@)) by {
            reveal(Seq::filter);
        }
        while i < self.entries.len()
            invariant
                i <= self.entries@.len(),
                self@.len() == self.entries@.len(),
                addressees(report@) == without(self@.take(i as int), sender_key@),
            decreases self.entries@.len() - i,
        {
            let entry = &self.entries[i];
            proof {
                let seen = self@.take(i as int);
                assert(self@.take(i + 1) =~= seen.push(self@[i as int]));
                seen.lemma_filter_push(self@[i as int], |e: Registration| e.name != sender_key@);
                assert(self@[i as int] == entry.registration());
            }
            if !same_text(entry.name.as_str(), sender_key) {
                let accepted = entry.handle.enqueue(message);
                let ghost sent = addressees(report@);
                report.push(
                    Delivery::attempt(entry.name.as_str(), entry.handle.owner_id(), accepted),
                );
                assert(addressees(report@) =~= sent.push(entry.registration()));
            }
            i += 1;
        }
        proof {
            assert(self@.take(i as int) =~= self@);
            lemma_broadcast_reaches_others(self@, sender_key@);
        }
        report
    }
}

} // verus!
