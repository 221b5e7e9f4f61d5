//! What holds of every pass of the relay, whatever its host answers.

use vstd::prelude::*;
use crate::identity::{first_relay_handle, is_relay_handle, lemma_first_relay_handle_from, InboundMessage, ProxyHandle};
use crate::registry::{lemma_without, without};
use crate::relay::{
    begin, on_target, pass_wf, step, turn_to, Action, ChannelLookup, Event, PassModel, Stage,
};

verus! {

/// The state of a pass that started in `m`, after the first `n` of `events`.
pub open spec fn state_after(m: PassModel, events: Seq<Event>, n: nat) -> PassModel
    decreases n,
{
    if n == 0 {
        m
    } else {
        step(state_after(m, events, (n - 1) as nat), events[n - 1]).0
    }
}

/// The action with which a pass that started in `m` answers `events[n]`.
pub open spec fn action_after(m: PassModel, events: Seq<Event>, n: nat) -> Action {
    step(state_after(m, events, n), events[n as int]).1
}

/// The `k`-th action of the pass over `message` whose host answers with
/// `events`: the opening action for `k == 0`, then the answer to each event.
pub open spec fn pass_action(message: InboundMessage, events: Seq<Event>, k: nat) -> Action {
    if k == 0 {
        begin(message).1
    } else {
        action_after(begin(message).0, events, (k - 1) as nat)
    }
}

/// The destination that an action works on, if it works on one.
pub open spec fn attempt_target(action: Action) -> Option<u64> {
    match action {
        Action::LookupChannel(c) => Some(c),
        Action::ListHandles(c) => Some(c),
        Action::CreateHandle(c) => Some(c),
        Action::Deliver(d) => Some(d.channel),
        Action::Unregister(c) => Some(c),
        _ => None,
    }
}

/// The destinations looked up among the first `n` answers of a pass that
/// started in `m`, in order.
pub open spec fn lookups(m: PassModel, events: Seq<Event>, n: nat) -> Seq<u64>
    decreases n,
{
    if n == 0 {
        Seq::empty()
    } else {
        let before = lookups(m, events, (n - 1) as nat);
        match action_after(m, events, (n - 1) as nat) {
            Action::LookupChannel(c) => before.push(c),
            _ => before,
        }
    }
}

/// A step leads from a state that a pass can be in to another such state, and
/// any destination that its action works on is one of the targets.
pub proof fn lemma_step_keeps_wf(m: PassModel, event: Event)
    requires
        pass_wf(m),
    ensures
        pass_wf(step(m, event).0),
        step(m, event).0.message == m.message,
        attempt_target(step(m, event).1) matches Some(c) ==> step(m, event).0.targets.contains(c),
{
    let source = m.message.source_channel;
    match event {
        Event::Channels(list) => {
            lemma_without(list@, source);
        },
        Event::Handles(handles) => {
            lemma_first_relay_handle_from(handles@, 0);
        },
        _ => {},
    }
    let after = step(m, event).0;
    if on_target(after.stage) {
        assert(after.targets.contains(after.targets[after.cursor]));
    }
}

/// However many answers a pass has taken, it is in a state that a pass can be
/// in and still relays the same message.
pub proof fn lemma_steps_keep_wf(m: PassModel, events: Seq<Event>, n: nat)
    requires
        pass_wf(m),
        n <= events.len(),
    ensures
        pass_wf(state_after(m, events, n)),
        state_after(m, events, n).message == m.message,
    decreases n,
{
    if n > 0 {
        lemma_steps_keep_wf(m, events, (n - 1) as nat);
        lemma_step_keeps_wf(state_after(m, events, (n - 1) as nat), events[n - 1]);
    }
}

/// A pass that is over stays over.
pub proof fn lemma_finished_stays(m: PassModel, events: Seq<Event>, n: nat)
    requires
        m.stage == Stage::Finished,
        n < events.len(),
    ensures
        state_after(m, events, n) == m,
        action_after(m, events, n) == Action::Done,
    decreases n,
{
    if n > 0 {
        lemma_finished_stays(m, events, (n - 1) as nat);
    }
}

/// No destination is the source: whatever the registry lists and whatever the
/// host answers, no action of a pass works on the channel that the message
/// came from.
pub proof fn lemma_no_self_delivery(message: InboundMessage, events: Seq<Event>, k: nat)
    requires
        k <= events.len(),
    ensures
        attempt_target(pass_action(message, events, k)) != Some(message.source_channel),
{
    if k > 0 {
        let n = (k - 1) as nat;
        let m = begin(message).0;
        lemma_steps_keep_wf(m, events, n);
        lemma_step_keeps_wf(state_after(m, events, n), events[n as int]);
    }
}

/// A message that a bot wrote is never relayed: its pass opens with
/// `Action::Done` and asks for nothing afterwards, whatever it is told.
pub proof fn lemma_bot_message_is_dropped(message: InboundMessage, events: Seq<Event>, k: nat)
    requires
        message.from_bot,
        k <= events.len(),
    ensures
        pass_action(message, events, k) == Action::Done,
{
    if k > 0 {
        lemma_finished_stays(begin(message).0, events, (k - 1) as nat);
    }
}

/// A message from a channel that the registry does not hold is never relayed:
/// the pass asks whether the source is registered, and unless the answer is
/// yes it asks for nothing more.
pub proof fn lemma_unregistered_source_is_dropped(
    message: InboundMessage,
    events: Seq<Event>,
    k: nat,
)
    requires
        !message.from_bot,
        events.len() > 0,
        !(events[0] matches Event::Registered(true)),
        k <= events.len(),
    ensures
        pass_action(message, events, 0) == Action::CheckRegistered(message.source_channel),
        k > 0 ==> pass_action(message, events, k) == Action::Done,
{
    let m = begin(message).0;
    if k > 0 {
        lemma_closed_after_first(m, events, k);
    }
}

/// A pass that the first answer ends is over from then on.
proof fn lemma_closed_after_first(m: PassModel, events: Seq<Event>, n: nat)
    requires
        1 <= n <= events.len(),
        step(m, events[0]).0.stage == Stage::Finished,
        step(m, events[0]).1 == Action::Done,
    ensures
        state_after(m, events, n).stage == Stage::Finished,
        action_after(m, events, (n - 1) as nat) == Action::Done,
    decreases n,
{
    if n == 1 {
        assert(state_after(m, events, 0) == m);
    } else {
        lemma_closed_after_first(m, events, (n - 1) as nat);
    }
}

/// The fan-out is complete and exact: once a pass over a message from a
/// registered channel is over, the destinations it looked up are the listed
/// channels other than the source, each once, in the order of the list.
pub proof fn lemma_every_other_channel_is_tried(
    message: InboundMessage,
    list: Vec<u64>,
    events: Seq<Event>,
    n: nat,
)
    requires
        !message.from_bot,
        2 <= n <= events.len(),
        events[0] == Event::Registered(true),
        events[1] == Event::Channels(list),
        state_after(begin(message).0, events, n).stage == Stage::Finished,
    ensures
        lookups(begin(message).0, events, n) == without(list@, message.source_channel),
{
    lemma_lookups_follow_cursor(message, list, events, n);
}

/// While a pass works through its targets, the destinations looked up so far
/// are the targets up to the current one.
proof fn lemma_lookups_follow_cursor(
    message: InboundMessage,
    list: Vec<u64>,
    events: Seq<Event>,
    n: nat,
)
    requires
        !message.from_bot,
        2 <= n <= events.len(),
        events[0] == Event::Registered(true),
        events[1] == Event::Channels(list),
    ensures
        ({
            let m = begin(message).0;
            let s = state_after(m, events, n);
            let targets = without(list@, message.source_channel);
            &&& pass_wf(s)
            &&& s.targets == targets
            &&& s.message == message
            &&& on_target(s.stage) || s.stage == Stage::Finished
            &&& on_target(s.stage) ==> lookups(m, events, n) == targets.take(s.cursor + 1)
            &&& s.stage == Stage::Finished ==> lookups(m, events, n) == targets
        }),
    decreases n,
{
    let m = begin(message).0;
    let targets = without(list@, message.source_channel);
    lemma_steps_keep_wf(m, events, n);
    if n == 2 {
        let s0 = state_after(m, events, 0);
        let s1 = state_after(m, events, 1);
        let s2 = state_after(m, events, 2);
        assert(s0 == m);
        assert(s1 == step(s0, events[0]).0);
        assert(s2 == step(s1, events[1]).0);
        assert(lookups(m, events, 0) =~= Seq::<u64>::empty());
        assert(action_after(m, events, 0) == Action::ListChannels);
        assert(lookups(m, events, 1) =~= Seq::<u64>::empty());
        if targets.len() > 0 {
            assert(action_after(m, events, 1) == Action::LookupChannel(targets[0]));
            assert(lookups(m, events, 2) =~= targets.take(1));
        } else {
            assert(action_after(m, events, 1) == Action::Done);
            assert(lookups(m, events, 2) =~= targets);
        }
    } else {
        let p = (n - 1) as nat;
        lemma_lookups_follow_cursor(message, list, events, p);
        let before = state_after(m, events, p);
        let s = state_after(m, events, n);
        let done = lookups(m, events, p);
        assert(s == step(before, events[p as int]).0);
        assert(action_after(m, events, p) == step(before, events[p as int]).1);
        if before.stage == Stage::Finished {
            assert(lookups(m, events, n) == done);
        } else {
            if s.cursor == before.cursor && on_target(s.stage) {
                assert(!(action_after(m, events, p) is LookupChannel));
                assert(lookups(m, events, n) == done);
            } else {
                assert(step(before, events[p as int]) == turn_to(before, before.cursor + 1));
                if before.cursor + 1 < targets.len() {
                    assert(lookups(m, events, n) == done.push(targets[before.cursor + 1]));
                    assert(done.push(targets[before.cursor + 1]) =~= targets.take(s.cursor + 1));
                } else {
                    assert(lookups(m, events, n) == done);
                    assert(targets.take(before.cursor + 1) =~= targets);
                }
            }
        }
    }
}

/// How far a stage is into the work on one target.
pub open spec fn stage_rank(stage: Stage) -> int {
    match stage {
        Stage::AwaitHandles => 1,
        Stage::AwaitHandle => 2,
        Stage::AwaitDelivery => 3,
        Stage::AwaitRemoval => 3,
        _ => 0,
    }
}

/// The most answers that a pass still takes once it works on its targets:
/// four for each target not yet begun, fewer for the one in hand.
pub open spec fn steps_left(m: PassModel) -> int {
    if on_target(m.stage) {
        4 * (m.targets.len() - m.cursor) - stage_rank(m.stage)
    } else {
        0
    }
}

/// Every answer brings a pass that works on its targets nearer to its end.
pub proof fn lemma_step_makes_progress(m: PassModel, event: Event)
    requires
        pass_wf(m),
        on_target(m.stage),
    ensures
        on_target(step(m, event).0.stage) || step(m, event).0.stage == Stage::Finished,
        step(m, event).0.targets == m.targets,
        0 <= steps_left(step(m, event).0) < steps_left(m),
{
    match event {
        Event::Handles(handles) => {
            lemma_first_relay_handle_from(handles@, 0);
        },
        _ => {},
    }
}

/// A pass comes to its end: over a message from a registered channel it is
/// over after the two answers of the registry and at most four answers for
/// each target, whatever those answers are.
pub proof fn lemma_pass_ends(
    message: InboundMessage,
    list: Vec<u64>,
    events: Seq<Event>,
    n: nat,
)
    requires
        !message.from_bot,
        events[0] == Event::Registered(true),
        events[1] == Event::Channels(list),
        2 + 4 * without(list@, message.source_channel).len() <= n <= events.len(),
    ensures
        state_after(begin(message).0, events, n).stage == Stage::Finished,
{
    lemma_steps_run_down(message, list, events, n);
}

/// After the registry's two answers each further answer takes one from the
/// steps that are left.
proof fn lemma_steps_run_down(message: InboundMessage, list: Vec<u64>, events: Seq<Event>, n: nat)
    requires
        !message.from_bot,
        events[0] == Event::Registered(true),
        events[1] == Event::Channels(list),
        2 <= n <= events.len(),
    ensures
        ({
            let s = state_after(begin(message).0, events, n);
            let most = 4 * without(list@, message.source_channel).len();
            &&& pass_wf(s)
            &&& on_target(s.stage) || s.stage == Stage::Finished
            &&& on_target(s.stage) ==> 1 <= steps_left(s) <= most - (n - 2)
        }),
    decreases n,
{
    let m = begin(message).0;
    lemma_steps_keep_wf(m, events, n);
    if n == 2 {
        let s0 = state_after(m, events, 0);
        let s1 = state_after(m, events, 1);
        assert(s0 == m);
        assert(s1 == step(s0, events[0]).0);
        assert(state_after(m, events, 2) == step(s1, events[1]).0);
    } else {
        let p = (n - 1) as nat;
        lemma_steps_run_down(message, list, events, p);
        let before = state_after(m, events, p);
        assert(state_after(m, events, n) == step(before, events[p as int]).0);
        if on_target(before.stage) {
            lemma_step_makes_progress(before, events[p as int]);
        }
    }
}

/// Self-heal: when the platform says of a target that it is not found, the
/// pass asks to unregister that target and no other channel, and a registry
/// that does so holds the target no more and every other channel as before.
pub proof fn lemma_missing_target_is_unregistered(m: PassModel, channels: Seq<u64>)
    requires
        pass_wf(m),
        m.stage == Stage::AwaitLookup,
    ensures
        step(m, Event::Lookup(ChannelLookup::NotFound)).1 == Action::Unregister(
            m.targets[m.cursor],
        ),
        m.targets[m.cursor] != m.message.source_channel,
        !without(channels, m.targets[m.cursor]).contains(m.targets[m.cursor]),
        forall|c: u64|
            c != m.targets[m.cursor] ==> (#[trigger] without(channels, m.targets[m.cursor]).contains(c)
                <==> channels.contains(c)),
{
    lemma_without(channels, m.targets[m.cursor]);
    assert(m.targets.contains(m.targets[m.cursor]));
}

/// Only a channel that is not found is unregistered: a pass asks to take a
/// channel out of the registry in answer to a lookup that found nothing, and
/// in answer to nothing else.
pub proof fn lemma_only_missing_channel_is_unregistered(m: PassModel, event: Event)
    requires
        pass_wf(m),
    ensures
        step(m, event).1 is Unregister <==> (m.stage == Stage::AwaitLookup
            && event matches Event::Lookup(ChannelLookup::NotFound)),
{
    match event {
        Event::Handles(handles) => {
            lemma_first_relay_handle_from(handles@, 0);
        },
        _ => {},
    }
}

/// A failure on one target stays with that target: the pass leaves the
/// registry alone, keeps its targets, and turns to the next one, which it
/// looks up, or ends if there is none.
pub proof fn lemma_failure_moves_on(m: PassModel)
    requires
        pass_wf(m),
        on_target(m.stage),
    ensures
        step(m, Event::Failed) == turn_to(m, m.cursor + 1),
        step(m, Event::Failed).0.targets == m.targets,
        !(step(m, Event::Failed).1 is Unregister),
        m.cursor + 1 < m.targets.len() ==> step(m, Event::Failed).1 == Action::LookupChannel(
            m.targets[m.cursor + 1],
        ),
{
}

/// Identity reuse: where a handle with the reserved name stands on the
/// target, the pass posts through the first such handle and creates none; it
/// asks for a new handle only where none stands there.
pub proof fn lemma_relay_handle_is_reused(m: PassModel, handles: Vec<ProxyHandle>)
    requires
        pass_wf(m),
        m.stage == Stage::AwaitHandles,
    ensures
        (exists|i: int| 0 <= i < handles@.len() && is_relay_handle(#[trigger] handles@[i])) ==> {
            &&& step(m, Event::Handles(handles)).1 matches Action::Deliver(d)
            &&& first_relay_handle(handles@) matches Some(i)
            &&& d.handle == handles@[i].id
            &&& d.channel == m.targets[m.cursor]
        },
        step(m, Event::Handles(handles)).1 is CreateHandle <==> forall|i: int|
            0 <= i < handles@.len() ==> !is_relay_handle(#[trigger] handles@[i]),
{
    lemma_first_relay_handle_from(handles@, 0);
}

} // verus!
