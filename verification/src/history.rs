//! The bounded buffer of the most recent broadcasts.

use vstd::prelude::*;
use crate::text::texts;

verus! {

/// How many broadcasts the history keeps at most.
pub const HISTORY_CAPACITY: usize = 20;

/// The part of `all` that a history keeps: all of it while it fits, else its
/// last `HISTORY_CAPACITY` messages, in their order.
pub open spec fn retained(all: Seq<Seq<char>>) -> Seq<Seq<char>> {
    if all.len() <= HISTORY_CAPACITY {
        all
    } else {
        all.subrange(all.len() - HISTORY_CAPACITY, all.len() as int)
    }
}

/// What a history that holds `held` holds after `messages` were appended one
/// by one.
pub open spec fn after_appends(held: Seq<Seq<char>>, messages: Seq<Seq<char>>) -> Seq<Seq<char>>
    decreases messages.len(),
{
    if messages.len() == 0 {
        held
    } else {
        retained(after_appends(held, messages.drop_last()).push(messages.last()))
    }
}

/// Appending one by one never leaves more than `HISTORY_CAPACITY` messages,
/// and leaves exactly the latest of what was held and what was appended, in
/// arrival order.
pub proof fn lemma_appends_keep_latest(held: Seq<Seq<char>>, messages: Seq<Seq<char>>)
    requires
        held.len() <= HISTORY_CAPACITY,
    ensures
        after_appends(held, messages).len() <= HISTORY_CAPACITY,
        after_appends(held, messages) == retained(held + messages),
    decreases messages.len(),
{
    if messages.len() == 0 {
        assert(held + messages =~= held);
    } else {
        let before = messages.drop_last();
        lemma_appends_keep_latest(held, before);
        assert((held + before).push(messages.last()) =~= held + messages);
        assert(retained(retained(held + before).push(messages.last())) =~= retained(
            held + messages,
        ));
    }
}

/// After more than `HISTORY_CAPACITY` appends to an empty history it holds
/// exactly the last `HISTORY_CAPACITY` of them, in arrival order.
pub proof fn lemma_overflow_keeps_last(messages: Seq<Seq<char>>)
    requires
        messages.len() > HISTORY_CAPACITY,
    ensures
        after_appends(Seq::empty(), messages) == messages.subrange(
            messages.len() - HISTORY_CAPACITY,
            messages.len() as int,
        ),
{
    lemma_appends_keep_latest(Seq::empty(), messages);
    assert(Seq::<Seq<char>>::empty() + messages =~= messages);
}

/// The most recent broadcasts, oldest first.
pub struct HistoryBuffer {
    entries: Vec<String>,
}

impl View for HistoryBuffer {
    type V = Seq<Seq<char>>;

    closed spec fn view(&self) -> Seq<Seq<char>> {
        texts(self.entries@)
    }
}

impl HistoryBuffer {
    #[verifier::type_invariant]
    spec fn within_capacity(&self) -> bool {
        self.entries@.len() <= HISTORY_CAPACITY
    }

    pub fn new() -> (history: Self)
        ensures
            history@ == Seq::<Seq<char>>::empty(),
    {
        let history = HistoryBuffer { entries: Vec::new() };
        assert(history@ =~= Seq::<Seq<char>>::empty());
        history
    }

    /// The number of broadcasts held.
    pub fn len(&self) -> (n: usize)
        ensures
            n == self@.len(),
            n <= HISTORY_CAPACITY,
    {
        proof {
            use_type_invariant(self);
        }
        self.entries.len()
    }

    pub fn is_empty(&self) -> (empty: bool)
        ensures
            empty == (self@.len() == 0),
    {
        self.entries.len() == 0
    }

    /// Records `message` as the newest broadcast. A full history first gives
    /// up its oldest one.
    pub fn append(&mut self, message: String)
        ensures
            final(self)@ == retained(old(self)@.push(message@)),
            final(self)@.len() <= HISTORY_CAPACITY,
    {
        proof {
            use_type_invariant(&*self);
        }
        let mut entries: Vec<String> = Vec::new();
        core::mem::swap(&mut self.entries, &mut entries);
        if entries.len() >= HISTORY_CAPACITY {
            entries.remove(0);
        }
        entries.push(message);
        core::mem::swap(&mut self.entries, &mut entries);
        assert(final(self)@ =~= retained(old(self)@.push(message@)));
    }

    /// A copy of the broadcasts held, oldest first.
    pub fn snapshot(&self) -> (copy: Vec<String>)
        ensures
            texts(copy@) == self@,
            copy@.len() == self@.len(),
    {
        let mut copy: Vec<String> = Vec::new();
        let mut i: usize = 0;
        while i < self.entries.len()
            invariant
                i <= self.entries@.len(),
                copy@.len() == i,
                forall|j: int| 0 <= j < i ==> copy@[j]@ == self.entries@[j]@,
            decreases self.entries@.len() - i,
        {
            copy.push(self.entries[i].clone());
            i += 1;
        }
        assert(texts(copy@) =~= self@);
        copy
    }
}

} // verus!
