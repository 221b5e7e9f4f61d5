//! The set of channels that take part in the relay.

use vstd::prelude::*;

verus! {

/// What `Registry::register` found.
#[derive(Clone, Copy, Debug, PartialEq, Eq, Structural)]
pub enum Registration {
    /// The channel was absent and is now registered.
    Added,
    /// The channel was registered before the call; nothing changed.
    AlreadyPresent,
}

/// What `Registry::unregister` found.
#[derive(Clone, Copy, Debug, PartialEq, Eq, Structural)]
pub enum Removal {
    /// The channel was registered and is now gone.
    Removed,
    /// The channel was not registered; nothing changed.
    NotPresent,
}

/// The test that keeps every channel but `id`.
pub open spec fn other_than(id: u64) -> spec_fn(u64) -> bool {
    |c: u64| c != id
}

/// A channel list with every occurrence of `id` taken out, the rest in order.
pub open spec fn without(channels: Seq<u64>, id: u64) -> Seq<u64> {
    channels.filter(other_than(id))
}

/// A channel list after `id` has been registered: unchanged when `id` is in it,
/// else with `id` at its end.
pub open spec fn with_channel(channels: Seq<u64>, id: u64) -> Seq<u64> {
    if channels.contains(id) {
        channels
    } else {
        channels.push(id)
    }
}

/// What registering `id` reports of a channel list.
pub open spec fn registration(channels: Seq<u64>, id: u64) -> Registration {
    if channels.contains(id) {
        Registration::AlreadyPresent
    } else {
        Registration::Added
    }
}

/// What unregistering `id` reports of a channel list.
pub open spec fn removal(channels: Seq<u64>, id: u64) -> Removal {
    if channels.contains(id) {
        Removal::Removed
    } else {
        Removal::NotPresent
    }
}

/// What `without` keeps and what it drops: `id` is gone, every other channel
/// stays, nothing is repeated that was not repeated before, and a list that
/// does not hold `id` is left as it is.
pub proof fn lemma_without(channels: Seq<u64>, id: u64)
    ensures
        !without(channels, id).contains(id),
        forall|c: u64| c != id ==> (#[trigger] without(channels, id).contains(c) <==> channels.contains(c)),
        channels.no_duplicates() ==> without(channels, id).no_duplicates(),
        !channels.contains(id) ==> without(channels, id) == channels,
        without(channels, id).len() <= channels.len(),
    decreases channels.len(),
{
    let keep = other_than(id);
    let out = without(channels, id);
    channels.lemma_filter_len(keep);
    if out.contains(id) {
        let j = choose|j: int| 0 <= j < out.len() && out[j] == id;
        channels.lemma_filter_pred(keep, j);
    }
    assert forall|c: u64| c != id implies (#[trigger] without(channels, id).contains(c)
        <==> channels.contains(c)) by {
        if out.contains(c) {
            channels.lemma_filter_contains_rev(keep, c);
        }
        if channels.contains(c) {
            let i = choose|i: int| 0 <= i < channels.len() && channels[i] == c;
            channels.lemma_filter_contains(keep, i);
        }
    }
    if channels.len() == 0 {
        reveal(Seq::filter);
    } else {
        let front = channels.drop_last();
        let last = channels.last();
        let kept = without(front, id);
        lemma_without(front, id);
        assert(channels =~= front.push(last));
        front.lemma_filter_push(last, keep);
        if channels.no_duplicates() {
            assert(front.no_duplicates());
            if last != id {
                if kept.contains(last) {
                    front.lemma_filter_contains_rev(keep, last);
                    let i = choose|i: int| 0 <= i < front.len() && front[i] == last;
                    assert(channels[i] == channels[channels.len() - 1]);
                }
                assert(out == kept.push(last));
                assert forall|i: int, j: int|
                    0 <= i < out.len() && 0 <= j < out.len() && i != j implies out[i]
                    != out[j] by {
                    if i < kept.len() {
                        assert(kept.contains(out[i]));
                    }
                    if j < kept.len() {
                        assert(kept.contains(out[j]));
                    }
                }
            }
        }
        if !channels.contains(id) {
            assert(last != id) by {
                assert(channels[channels.len() - 1] == last);
            }
            if front.contains(id) {
                let i = choose|i: int| 0 <= i < front.len() && front[i] == id;
                assert(channels[i] == id);
            }
        }
    }
}

/// The channels of `channels` other than `id`, in their order.
pub fn channels_without(channels: &Vec<u64>, id: u64) -> (rest: Vec<u64>)
    ensures
        rest@ == without(channels@, id),
{
    let mut rest: Vec<u64> = Vec::new();
    let mut i: usize = 0;
    proof {
        reveal(Seq::filter);
        assert(channels@.take(0) =~= Seq::<u64>::empty());
    }
    while i < channels.len()
        invariant
            i <= channels.len(),
            rest@ == without(channels@.take(i as int), id),
        decreases channels.len() - i,
    {
        let c: u64 = channels[i];
        proof {
            channels@.take(i as int).lemma_filter_push(c, other_than(id));
            assert(channels@.take(i as int).push(c) =~= channels@.take(i + 1));
        }
        if c != id {
            rest.push(c);
        }
        i += 1;
    }
    proof {
        assert(channels@.take(channels.len() as int) =~= channels@);
    }
    rest
}

/// The channels that have opted into the relay, each at most once, in the
/// order in which they joined.
pub struct Registry {
    channels: Vec<u64>,
}

impl Registry {
    /// The registered channels, oldest first.
    pub closed spec fn view(&self) -> Seq<u64> {
        self.channels@
    }

    /// No channel is registered twice.
    pub open spec fn wf(&self) -> bool {
        self@.no_duplicates()
    }

    /// A registry with no channel in it.
    pub fn new() -> (registry: Registry)
        ensures
            registry.wf(),
            registry@ == Seq::<u64>::empty(),
    {
        Registry { channels: Vec::new() }
    }

    /// Whether `id` is registered.
    pub fn is_registered(&self, id: u64) -> (found: bool)
        ensures
            found == self@.contains(id),
    {
        let mut i: usize = 0;
        while i < self.channels.len()
            invariant
                i <= self.channels.len(),
                forall|j: int| 0 <= j < i ==> self.channels@[j] != id,
            decreases self.channels.len() - i,
        {
            if self.channels[i] == id {
                return true;
            }
            i += 1;
        }
        false
    }

    /// Registers `id` unless it is registered already, and says which it was.
    pub fn register(&mut self, id: u64) -> (outcome: Registration)
        requires
            old(self).wf(),
        ensures
            final(self).wf(),
            final(self)@ == with_channel(old(self)@, id),
            final(self)@.contains(id),
            outcome == registration(old(self)@, id),
    {
        if self.is_registered(id) {
            Registration::AlreadyPresent
        } else {
            self.channels.push(id);
            proof {
                let after = self.channels@;
                assert(after[after.len() - 1] == id);
                assert forall|i: int, j: int|
                    0 <= i < after.len() && 0 <= j < after.len() && i != j implies after[i]
                    != after[j] by {
                    if i < after.len() - 1 {
                        assert(old(self)@[i] == after[i]);
                        assert(old(self)@.contains(after[i]));
                    }
                    if j < after.len() - 1 {
                        assert(old(self)@[j] == after[j]);
                        assert(old(self)@.contains(after[j]));
                    }
                }
            }
            Registration::Added
        }
    }

    /// Takes `id` out if it is registered, and says which it was.
    pub fn unregister(&mut self, id: u64) -> (outcome: Removal)
        requires
            old(self).wf(),
        ensures
            final(self).wf(),
            final(self)@ == without(old(self)@, id),
            !final(self)@.contains(id),
            outcome == removal(old(self)@, id),
    {
        proof {
            lemma_without(self@, id);
        }
        if self.is_registered(id) {
            self.channels = channels_without(&self.channels, id);
            Removal::Removed
        } else {
            Removal::NotPresent
        }
    }

    /// Every registered channel, oldest first, as it stands at the call.
    pub fn list(&self) -> (channels: Vec<u64>)
        ensures
            channels@ == self@,
    {
        self.channels.clone()
    }
}

/// Registering a channel twice adds it once: the first call reports `Added`
/// for a channel that was absent, the second reports `AlreadyPresent` and
/// changes nothing, and the list then holds the channel at exactly one place.
pub proof fn lemma_register_twice(channels: Seq<u64>, id: u64)
    requires
        channels.no_duplicates(),
    ensures
        !channels.contains(id) ==> registration(channels, id) == Registration::Added,
        registration(with_channel(channels, id), id) == Registration::AlreadyPresent,
        with_channel(channels, id).contains(id),
        with_channel(with_channel(channels, id), id) == with_channel(channels, id),
        with_channel(channels, id).no_duplicates(),
        with_channel(channels, id).filter(|c: u64| c == id).len() == 1,
{
    let once = with_channel(channels, id);
    if !channels.contains(id) {
        assert(once[once.len() - 1] == id);
        assert forall|i: int, j: int| 0 <= i < once.len() && 0 <= j < once.len() && i != j implies once[i]
            != once[j] by {
            if i < once.len() - 1 {
                assert(channels.contains(once[i]));
            }
            if j < once.len() - 1 {
                assert(channels.contains(once[j]));
            }
        }
    }
    lemma_one_occurrence(once, id);
}

/// Unregistering a registered channel reports `Removed`; a second time it
/// reports `NotPresent` and changes nothing more.
pub proof fn lemma_unregister_twice(channels: Seq<u64>, id: u64)
    requires
        channels.contains(id),
    ensures
        removal(channels, id) == Removal::Removed,
        removal(without(channels, id), id) == Removal::NotPresent,
        without(without(channels, id), id) == without(channels, id),
{
    lemma_without(channels, id);
    lemma_without(without(channels, id), id);
}

/// In a list without repeats a channel that occurs in it occurs once.
pub proof fn lemma_one_occurrence(channels: Seq<u64>, id: u64)
    requires
        channels.no_duplicates(),
        channels.contains(id),
    ensures
        channels.filter(|c: u64| c == id).len() == 1,
    decreases channels.len(),
{
    reveal(Seq::filter);
    let same = |c: u64| c == id;
    let front = channels.drop_last();
    let last = channels.last();
    assert(channels.len() > 0);
    if last == id {
        assert forall|i: int| 0 <= i < front.len() implies !same(#[trigger] front[i]) by {
            assert(channels[i] != channels[channels.len() - 1]);
        }
        front.lemma_all_neg_filter_empty(same);
    } else {
        let i = choose|i: int| 0 <= i < channels.len() && channels[i] == id;
        assert(front[i] == id);
        lemma_one_occurrence(front, id);
    }
}

/// Unregistering a channel that is not registered reports `NotPresent` and
/// leaves the list as it was, however often it is done.
pub proof fn lemma_unregister_absent(channels: Seq<u64>, id: u64)
    requires
        !channels.contains(id),
    ensures
        removal(channels, id) == Removal::NotPresent,
        without(channels, id) == channels,
        removal(without(channels, id), id) == Removal::NotPresent,
{
    lemma_without(channels, id);
}

} // verus!
