//! The fan-out engine.
//!
//! One pass relays one inbound message. The engine makes no call itself: it
//! hands its host an `Action`, the host performs it and hands back an `Event`,
//! and the engine answers with the next action until it says `Action::Done`.

use vstd::prelude::*;
use crate::identity::{
    compose, delivery_of, find_relay_handle, first_relay_handle, Delivery, InboundMessage,
    ProxyHandle,
};
use crate::registry::{channels_without, lemma_without, without, Registry};

verus! {

/// What the platform knows of a channel identifier.
#[derive(Clone, Copy, Debug, PartialEq, Eq, Structural)]
pub enum ChannelLookup {
    /// The channel exists and takes text.
    Postable,
    /// The channel exists and takes no text.
    NotPostable,
    /// No such channel exists any more.
    NotFound,
}

/// What the engine asks its host to do next.
#[derive(Clone, Debug, PartialEq, Eq)]
pub enum Action {
    /// Ask the registry whether this channel is registered.
    CheckRegistered(u64),
    /// Ask the registry for all registered channels.
    ListChannels,
    /// Resolve this channel identifier on the platform.
    LookupChannel(u64),
    /// Enumerate the posting handles that stand on this channel.
    ListHandles(u64),
    /// Create a posting handle with the reserved name on this channel.
    CreateHandle(u64),
    /// Post this copy.
    Deliver(Delivery),
    /// Take this channel out of the registry.
    Unregister(u64),
    /// The pass is over: nothing is left to do.
    Done,
}

/// What came of the action that the engine asked for last.
#[derive(Clone, Debug, PartialEq, Eq)]
pub enum Event {
    /// The registry's answer to `Action::CheckRegistered`.
    Registered(bool),
    /// The registry's answer to `Action::ListChannels`.
    Channels(Vec<u64>),
    /// The platform's answer to `Action::LookupChannel`.
    Lookup(ChannelLookup),
    /// The platform's answer to `Action::ListHandles`.
    Handles(Vec<ProxyHandle>),
    /// The identifier of the handle made for `Action::CreateHandle`.
    HandleCreated(u64),
    /// The action was carried out and has nothing to report.
    Completed,
    /// The action failed: denied, timed out, store or network error.
    Failed,
}

/// Where a pass stands: which answer it is waiting for.
#[derive(Clone, Copy, Debug, PartialEq, Eq, Structural)]
pub enum Stage {
    /// Waiting to learn whether the source channel is registered.
    AwaitRegistered,
    /// Waiting for the list of registered channels.
    AwaitChannels,
    /// Waiting for the lookup of the current target.
    AwaitLookup,
    /// Waiting for the current target's handles.
    AwaitHandles,
    /// Waiting for a handle to be created on the current target.
    AwaitHandle,
    /// Waiting for the delivery to the current target.
    AwaitDelivery,
    /// Waiting for the current target to be unregistered.
    AwaitRemoval,
    /// Over.
    Finished,
}

/// A pass as the contracts see it.
pub struct PassModel {
    /// The message being relayed.
    pub message: InboundMessage,
    /// The destinations, in the order in which they are tried.
    pub targets: Seq<u64>,
    /// The place in `targets` of the destination being tried.
    pub cursor: int,
    /// Which answer the pass is waiting for.
    pub stage: Stage,
}

/// Whether a stage belongs to the handling of one destination.
pub open spec fn on_target(stage: Stage) -> bool {
    stage == Stage::AwaitLookup || stage == Stage::AwaitHandles || stage == Stage::AwaitHandle
        || stage == Stage::AwaitDelivery || stage == Stage::AwaitRemoval
}

/// The states that a pass can be in: the cursor is within the targets, on one
/// of them while a destination is handled; the source is no target of its own
/// message; and a bot's message has no pass to speak of.
pub open spec fn pass_wf(m: PassModel) -> bool {
    &&& 0 <= m.cursor <= m.targets.len()
    &&& on_target(m.stage) ==> m.cursor < m.targets.len()
    &&& !m.targets.contains(m.message.source_channel)
    &&& m.message.from_bot ==> m.stage == Stage::Finished
}

/// The first state of a pass and its first action: a bot's message is dropped
/// at once, for any other the registry is asked about the source channel.
pub open spec fn begin(message: InboundMessage) -> (PassModel, Action) {
    if message.from_bot {
        (
            PassModel { message, targets: Seq::empty(), cursor: 0, stage: Stage::Finished },
            Action::Done,
        )
    } else {
        (
            PassModel { message, targets: Seq::empty(), cursor: 0, stage: Stage::AwaitRegistered },
            Action::CheckRegistered(message.source_channel),
        )
    }
}

/// The pass `m`, over.
pub open spec fn finished(m: PassModel) -> PassModel {
    PassModel { stage: Stage::Finished, ..m }
}

/// Moves to the destination at `cursor`: looks it up if there is one, else
/// ends the pass.
pub open spec fn turn_to(m: PassModel, cursor: int) -> (PassModel, Action) {
    if 0 <= cursor < m.targets.len() {
        (PassModel { cursor, stage: Stage::AwaitLookup, ..m }, Action::LookupChannel(m.targets[cursor]))
    } else {
        (PassModel { cursor: m.targets.len() as int, stage: Stage::Finished, ..m }, Action::Done)
    }
}

/// The pass `m` waiting in `stage` for an answer about its current target.
pub open spec fn waiting(m: PassModel, stage: Stage) -> PassModel {
    PassModel { stage, ..m }
}

/// One step of a pass: the state and the action that follow when `event`
/// answers the action asked for in state `m`.
///
/// An answer of another kind than the one asked for counts as a failure of
/// the step in hand. A failure before the targets are known ends the pass; a
/// failure on one target moves on to the next.
pub open spec fn step(m: PassModel, event: Event) -> (PassModel, Action) {
    let target = m.targets[m.cursor];
    match m.stage {
        Stage::Finished => (m, Action::Done),
        Stage::AwaitRegistered => match event {
            Event::Registered(true) => (waiting(m, Stage::AwaitChannels), Action::ListChannels),
            _ => (finished(m), Action::Done),
        },
        Stage::AwaitChannels => match event {
            Event::Channels(list) => turn_to(
                PassModel { targets: without(list@, m.message.source_channel), ..m },
                0,
            ),
            _ => (finished(m), Action::Done),
        },
        Stage::AwaitLookup => match event {
            Event::Lookup(ChannelLookup::Postable) => (
                waiting(m, Stage::AwaitHandles),
                Action::ListHandles(target),
            ),
            Event::Lookup(ChannelLookup::NotFound) => (
                waiting(m, Stage::AwaitRemoval),
                Action::Unregister(target),
            ),
            _ => turn_to(m, m.cursor + 1),
        },
        Stage::AwaitHandles => match event {
            Event::Handles(handles) => match first_relay_handle(handles@) {
                Some(i) => (
                    waiting(m, Stage::AwaitDelivery),
                    Action::Deliver(delivery_of(m.message, target, handles@[i].id)),
                ),
                None => (waiting(m, Stage::AwaitHandle), Action::CreateHandle(target)),
            },
            _ => turn_to(m, m.cursor + 1),
        },
        Stage::AwaitHandle => match event {
            Event::HandleCreated(handle) => (
                waiting(m, Stage::AwaitDelivery),
                Action::Deliver(delivery_of(m.message, target, handle)),
            ),
            _ => turn_to(m, m.cursor + 1),
        },
        Stage::AwaitDelivery => turn_to(m, m.cursor + 1),
        Stage::AwaitRemoval => turn_to(m, m.cursor + 1),
    }
}

/// One pass of the relay over one inbound message.
pub struct RelayPass {
    message: InboundMessage,
    targets: Vec<u64>,
    cursor: usize,
    stage: Stage,
}

impl RelayPass {
    /// The pass as the contracts see it.
    pub closed spec fn view(&self) -> PassModel {
        PassModel {
            message: self.message,
            targets: self.targets@,
            cursor: self.cursor as int,
            stage: self.stage,
        }
    }

    /// The pass is in a state that `start` and `advance` can lead to.
    pub open spec fn wf(&self) -> bool {
        pass_wf(self@)
    }

    /// Opens a pass for `message` and gives its first action.
    pub fn start(message: InboundMessage) -> (opened: (RelayPass, Action))
        ensures
            opened.0.wf(),
            opened.0@ == begin(message).0,
            opened.1 == begin(message).1,
    {
        let from_bot = message.from_bot;
        let source = message.source_channel;
        let stage = if from_bot {
            Stage::Finished
        } else {
            Stage::AwaitRegistered
        };
        let pass = RelayPass { message, targets: Vec::new(), cursor: 0, stage };
        if from_bot {
            (pass, Action::Done)
        } else {
            (pass, Action::CheckRegistered(source))
        }
    }

    /// Whether the pass is over.
    pub fn is_finished(&self) -> (over: bool)
        ensures
            over == (self@.stage == Stage::Finished),
    {
        self.stage == Stage::Finished
    }

    /// The message that the pass relays.
    pub fn message(&self) -> (message: &InboundMessage)
        ensures
            *message == self@.message,
    {
        &self.message
    }

    /// Ends the work on the current target and turns to the one at `cursor`.
    fn turn(&mut self, cursor: usize) -> (action: Action)
        requires
            !old(self)@.message.from_bot,
            !old(self)@.targets.contains(old(self)@.message.source_channel),
            cursor <= old(self)@.targets.len(),
        ensures
            final(self).wf(),
            final(self)@ == turn_to(old(self)@, cursor as int).0,
            action == turn_to(old(self)@, cursor as int).1,
    {
        if cursor < self.targets.len() {
            self.cursor = cursor;
            self.stage = Stage::AwaitLookup;
            Action::LookupChannel(self.targets[cursor])
        } else {
            self.cursor = self.targets.len();
            self.stage = Stage::Finished;
            Action::Done
        }
    }

    /// Takes the answer to the action asked for last and gives the next action.
    pub fn advance(&mut self, event: Event) -> (action: Action)
        requires
            old(self).wf(),
        ensures
            final(self).wf(),
            final(self)@ == step(old(self)@, event).0,
            action == step(old(self)@, event).1,
    {
        proof {
            // the targets fit a vector, so the cursor can be moved past the current one
            assert(self.targets@.len() == self.targets.len());
        }
        match self.stage {
            Stage::Finished => Action::Done,
            Stage::AwaitRegistered => match event {
                Event::Registered(true) => {
                    self.stage = Stage::AwaitChannels;
                    Action::ListChannels
                },
                _ => {
                    self.stage = Stage::Finished;
                    Action::Done
                },
            },
            Stage::AwaitChannels => match event {
                Event::Channels(list) => {
                    proof {
                        lemma_without(list@, self.message.source_channel);
                    }
                    self.targets = channels_without(&list, self.message.source_channel);
                    self.turn(0)
                },
                _ => {
                    self.stage = Stage::Finished;
                    Action::Done
                },
            },
            Stage::AwaitLookup => match event {
                Event::Lookup(ChannelLookup::Postable) => {
                    self.stage = Stage::AwaitHandles;
                    Action::ListHandles(self.targets[self.cursor])
                },
                Event::Lookup(ChannelLookup::NotFound) => {
                    self.stage = Stage::AwaitRemoval;
                    Action::Unregister(self.targets[self.cursor])
                },
                _ => {
                    let next: usize = self.cursor + 1;
                    self.turn(next)
                },
            },
            Stage::AwaitHandles => match event {
                Event::Handles(handles) => match find_relay_handle(&handles) {
                    Some(i) => {
                        self.stage = Stage::AwaitDelivery;
                        Action::Deliver(
                            compose(&self.message, self.targets[self.cursor], handles[i].id),
                        )
                    },
                    None => {
                        self.stage = Stage::AwaitHandle;
                        Action::CreateHandle(self.targets[self.cursor])
                    },
                },
                _ => {
                    let next: usize = self.cursor + 1;
                    self.turn(next)
                },
            },
            Stage::AwaitHandle => match event {
                Event::HandleCreated(handle) => {
                    self.stage = Stage::AwaitDelivery;
                    Action::Deliver(compose(&self.message, self.targets[self.cursor], handle))
                },
                _ => {
                    let next: usize = self.cursor + 1;
                    self.turn(next)
                },
            },
            Stage::AwaitDelivery => {
                let next: usize = self.cursor + 1;
                self.turn(next)
            },
            Stage::AwaitRemoval => {
                let next: usize = self.cursor + 1;
                self.turn(next)
            },
        }
    }
}

/// An event of the platform's feed, as far as the relay tells events apart.
#[derive(Clone, Debug, PartialEq, Eq)]
pub enum FeedEvent {
    /// A message was posted.
    Message(InboundMessage),
    /// The connection stands; the text is the name of the relay's own user.
    Ready(String),
    /// Anything else.
    Other,
}

/// What the host does about an event of the feed.
pub enum Reaction {
    /// Run this pass, beginning with this action.
    Relay(RelayPass, Action),
    /// Note that the user of this name is connected.
    Announce(String),
    /// Nothing.
    Ignore,
}

/// Sorts the events of the feed: a message opens a pass, the ready signal is
/// announced, and every other event is passed over.
pub fn all_event_handler(event: FeedEvent) -> (reaction: Reaction)
    ensures
        match event {
            FeedEvent::Message(message) => {
                &&& reaction matches Reaction::Relay(pass, action)
                &&& pass.wf()
                &&& pass@ == begin(message).0
                &&& action == begin(message).1
            },
            FeedEvent::Ready(name) => reaction matches Reaction::Announce(who) && who == name,
            FeedEvent::Other => reaction is Ignore,
        },
{
    match event {
        FeedEvent::Message(message) => {
            let opened = RelayPass::start(message);
            Reaction::Relay(opened.0, opened.1)
        },
        FeedEvent::Ready(name) => Reaction::Announce(name),
        FeedEvent::Other => Reaction::Ignore,
    }
}

/// The answer that a registry gives to an action, where the action is one
/// for the registry: whether a channel is registered, the list of channels,
/// or the removal of a channel, which is carried out. Any other action is left
/// to the platform and leaves the registry as it is.
pub open spec fn registry_answer(channels: Seq<u64>, action: Action, answer: Option<Event>) -> bool {
    match action {
        Action::CheckRegistered(c) => answer == Some(Event::Registered(channels.contains(c))),
        Action::ListChannels => answer matches Some(Event::Channels(list)) && list@ == channels,
        Action::Unregister(_) => answer == Some(Event::Completed),
        _ => answer.is_none(),
    }
}

/// The registry after it has served `action`.
pub open spec fn registry_after(channels: Seq<u64>, action: Action) -> Seq<u64> {
    match action {
        Action::Unregister(c) => without(channels, c),
        _ => channels,
    }
}

/// Serves `action` from a registry held in memory, if it is one for the
/// registry, and gives the event to hand to the pass.
pub fn serve(registry: &mut Registry, action: &Action) -> (answer: Option<Event>)
    requires
        old(registry).wf(),
    ensures
        final(registry).wf(),
        final(registry)@ == registry_after(old(registry)@, *action),
        registry_answer(old(registry)@, *action, answer),
{
    match action {
        Action::CheckRegistered(c) => Some(Event::Registered(registry.is_registered(*c))),
        Action::ListChannels => Some(Event::Channels(registry.list())),
        Action::Unregister(c) => {
            registry.unregister(*c);
            Some(Event::Completed)
        },
        _ => None,
    }
}

} // verus!
