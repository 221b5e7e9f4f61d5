use global_chat::identity::{reserved_name, Delivery, InboundMessage, ProxyHandle};
use global_chat::registry::Registry;
use global_chat::relay::{
    all_event_handler, serve, Action, ChannelLookup, Event, FeedEvent, Reaction, RelayPass,
};

const A: u64 = 1001;
const B: u64 = 1002;
const C: u64 = 1003;

/// A platform made of lists: which channels are gone, which take no text,
/// on which an action fails, and which handles stand where.
struct Platform {
    gone: Vec<u64>,
    voice: Vec<u64>,
    denied: Vec<u64>,
    undeliverable: Vec<u64>,
    handles: Vec<(u64, ProxyHandle)>,
    next_handle: u64,
    delivered: Vec<Delivery>,
    created: Vec<u64>,
}

fn platform() -> Platform {
    Platform {
        gone: Vec::new(),
        voice: Vec::new(),
        denied: Vec::new(),
        undeliverable: Vec::new(),
        handles: Vec::new(),
        next_handle: 500,
        delivered: Vec::new(),
        created: Vec::new(),
    }
}

fn perform(platform: &mut Platform, action: &Action) -> Event {
    match action {
        Action::LookupChannel(c) => {
            if platform.gone.contains(c) {
                Event::Lookup(ChannelLookup::NotFound)
            } else if platform.voice.contains(c) {
                Event::Lookup(ChannelLookup::NotPostable)
            } else {
                Event::Lookup(ChannelLookup::Postable)
            }
        }
        Action::ListHandles(c) => {
            if platform.denied.contains(c) {
                Event::Failed
            } else {
                let here: Vec<ProxyHandle> = platform
                    .handles
                    .iter()
                    .filter(|(channel, _)| channel == c)
                    .map(|(_, handle)| handle.clone())
                    .collect();
                Event::Handles(here)
            }
        }
        Action::CreateHandle(c) => {
            let id = platform.next_handle;
            platform.next_handle += 1;
            platform.handles.push((*c, ProxyHandle { id, name: Some(reserved_name()) }));
            platform.created.push(*c);
            Event::HandleCreated(id)
        }
        Action::Deliver(delivery) => {
            if platform.undeliverable.contains(&delivery.channel) {
                Event::Failed
            } else {
                platform.delivered.push(delivery.clone());
                Event::Completed
            }
        }
        _ => Event::Failed,
    }
}

fn run_pass(registry: &mut Registry, platform: &mut Platform, message: InboundMessage) -> Vec<Action> {
    let (mut pass, mut action) = RelayPass::start(message);
    let mut trace = vec![action.clone()];
    let mut steps = 0;
    while action != Action::Done {
        let event = match serve(registry, &action) {
            Some(event) => event,
            None => perform(platform, &action),
        };
        action = pass.advance(event);
        trace.push(action.clone());
        steps += 1;
        assert!(steps < 1000);
    }
    assert!(pass.is_finished());
    trace
}

fn lookups(trace: &[Action]) -> Vec<u64> {
    let mut out = Vec::new();
    for action in trace {
        if let Action::LookupChannel(c) = action {
            out.push(*c);
        }
    }
    out
}

fn message_from(source: u64) -> InboundMessage {
    InboundMessage {
        author_name: "alice".to_string(),
        avatar_url: Some("https://cdn.example/alice.png".to_string()),
        body: "good morning".to_string(),
        source_channel: source,
        from_bot: false,
    }
}

fn registry_of(channels: &[u64]) -> Registry {
    let mut registry = Registry::new();
    for c in channels {
        registry.register(*c);
    }
    registry
}

#[test]
fn message_is_relayed_to_the_other_channels_only() {
    let mut registry = registry_of(&[A, B, C]);
    let mut platform = platform();
    let trace = run_pass(&mut registry, &mut platform, message_from(A));
    assert_eq!(lookups(&trace), vec![B, C]);
    let reached: Vec<u64> = platform.delivered.iter().map(|d| d.channel).collect();
    assert_eq!(reached, vec![B, C]);
    for action in &trace {
        match action {
            Action::LookupChannel(c)
            | Action::ListHandles(c)
            | Action::CreateHandle(c)
            | Action::Unregister(c) => assert_ne!(*c, A),
            Action::Deliver(d) => assert_ne!(d.channel, A),
            _ => {}
        }
    }
    assert_eq!(registry.list(), vec![A, B, C]);
}

#[test]
fn message_from_the_middle_channel_reaches_both_ends() {
    let mut registry = registry_of(&[A, B, C]);
    let mut platform = platform();
    let trace = run_pass(&mut registry, &mut platform, message_from(B));
    assert_eq!(lookups(&trace), vec![A, C]);
}

#[test]
fn full_trace_of_a_delivery_to_one_fresh_channel() {
    let mut registry = registry_of(&[A, B]);
    let mut platform = platform();
    let trace = run_pass(&mut registry, &mut platform, message_from(A));
    let copy = Delivery {
        channel: B,
        handle: 500,
        display_name: "alice".to_string(),
        avatar_url: Some("https://cdn.example/alice.png".to_string()),
        body: "good morning".to_string(),
    };
    assert_eq!(
        trace,
        vec![
            Action::CheckRegistered(A),
            Action::ListChannels,
            Action::LookupChannel(B),
            Action::ListHandles(B),
            Action::CreateHandle(B),
            Action::Deliver(copy.clone()),
            Action::Done,
        ]
    );
    assert_eq!(platform.delivered, vec![copy]);
}

#[test]
fn missing_target_is_unregistered() {
    let mut registry = registry_of(&[A, B]);
    let mut platform = platform();
    platform.gone.push(B);
    let trace = run_pass(&mut registry, &mut platform, message_from(A));
    assert_eq!(
        trace,
        vec![
            Action::CheckRegistered(A),
            Action::ListChannels,
            Action::LookupChannel(B),
            Action::Unregister(B),
            Action::Done,
        ]
    );
    assert!(platform.delivered.is_empty());
    assert_eq!(registry.list(), vec![A]);
}

#[test]
fn missing_target_does_not_stop_the_rest() {
    let mut registry = registry_of(&[A, B, C]);
    let mut platform = platform();
    platform.gone.push(B);
    let trace = run_pass(&mut registry, &mut platform, message_from(A));
    assert_eq!(lookups(&trace), vec![B, C]);
    let reached: Vec<u64> = platform.delivered.iter().map(|d| d.channel).collect();
    assert_eq!(reached, vec![C]);
    assert_eq!(registry.list(), vec![A, C]);
}

#[test]
fn bot_message_produces_no_attempt() {
    let mut registry = registry_of(&[A, B, C]);
    let mut platform = platform();
    let mut message = message_from(A);
    message.from_bot = true;
    let trace = run_pass(&mut registry, &mut platform, message);
    assert_eq!(trace, vec![Action::Done]);
    assert!(platform.delivered.is_empty());
    assert_eq!(registry.list(), vec![A, B, C]);
}

#[test]
fn finished_pass_answers_done_to_anything() {
    let mut message = message_from(A);
    message.from_bot = true;
    let (mut pass, first) = RelayPass::start(message);
    assert_eq!(first, Action::Done);
    assert!(pass.is_finished());
    assert_eq!(pass.advance(Event::Registered(true)), Action::Done);
    assert_eq!(pass.advance(Event::Channels(vec![A, B])), Action::Done);
    assert_eq!(pass.advance(Event::Lookup(ChannelLookup::NotFound)), Action::Done);
    assert_eq!(pass.advance(Event::Failed), Action::Done);
    assert!(pass.is_finished());
}

#[test]
fn message_from_unregistered_channel_is_dropped() {
    let mut registry = registry_of(&[B, C]);
    let mut platform = platform();
    let trace = run_pass(&mut registry, &mut platform, message_from(A));
    assert_eq!(trace, vec![Action::CheckRegistered(A), Action::Done]);
    assert!(platform.delivered.is_empty());
    assert_eq!(registry.list(), vec![B, C]);
}

#[test]
fn failed_registry_check_ends_the_pass() {
    let (mut pass, first) = RelayPass::start(message_from(A));
    assert_eq!(first, Action::CheckRegistered(A));
    assert_eq!(pass.advance(Event::Failed), Action::Done);
    assert!(pass.is_finished());
}

#[test]
fn failed_listing_ends_the_pass() {
    let (mut pass, _) = RelayPass::start(message_from(A));
    assert_eq!(pass.advance(Event::Registered(true)), Action::ListChannels);
    assert_eq!(pass.advance(Event::Failed), Action::Done);
    assert!(pass.is_finished());
}

#[test]
fn only_channel_registered_has_nothing_to_do() {
    let mut registry = registry_of(&[A]);
    let mut platform = platform();
    let trace = run_pass(&mut registry, &mut platform, message_from(A));
    assert_eq!(trace, vec![Action::CheckRegistered(A), Action::ListChannels, Action::Done]);
}

#[test]
fn transient_failure_on_one_target_spares_the_others() {
    let mut registry = registry_of(&[A, B, C]);
    let mut platform = platform();
    platform.undeliverable.push(B);
    let trace = run_pass(&mut registry, &mut platform, message_from(A));
    assert_eq!(lookups(&trace), vec![B, C]);
    let reached: Vec<u64> = platform.delivered.iter().map(|d| d.channel).collect();
    assert_eq!(reached, vec![C]);
    assert!(!trace.iter().any(|a| matches!(a, Action::Unregister(_))));
    assert_eq!(registry.list(), vec![A, B, C]);
    assert!(registry.is_registered(B));
}

#[test]
fn denied_handle_listing_spares_the_others() {
    let mut registry = registry_of(&[A, B, C]);
    let mut platform = platform();
    platform.denied.push(B);
    let trace = run_pass(&mut registry, &mut platform, message_from(A));
    let reached: Vec<u64> = platform.delivered.iter().map(|d| d.channel).collect();
    assert_eq!(reached, vec![C]);
    assert!(!trace.iter().any(|a| matches!(a, Action::Unregister(_))));
    assert_eq!(registry.list(), vec![A, B, C]);
}

#[test]
fn failed_handle_creation_moves_on() {
    let (mut pass, _) = RelayPass::start(message_from(A));
    pass.advance(Event::Registered(true));
    assert_eq!(pass.advance(Event::Channels(vec![A, B, C])), Action::LookupChannel(B));
    assert_eq!(pass.advance(Event::Lookup(ChannelLookup::Postable)), Action::ListHandles(B));
    assert_eq!(pass.advance(Event::Handles(Vec::new())), Action::CreateHandle(B));
    assert_eq!(pass.advance(Event::Failed), Action::LookupChannel(C));
    assert_eq!(pass.advance(Event::Failed), Action::Done);
    assert!(pass.is_finished());
}

#[test]
fn channel_without_text_is_skipped_in_silence() {
    let mut registry = registry_of(&[A, B, C]);
    let mut platform = platform();
    platform.voice.push(B);
    let trace = run_pass(&mut registry, &mut platform, message_from(A));
    assert_eq!(
        trace[..5].to_vec(),
        vec![
            Action::CheckRegistered(A),
            Action::ListChannels,
            Action::LookupChannel(B),
            Action::LookupChannel(C),
            Action::ListHandles(C),
        ]
    );
    assert_eq!(registry.list(), vec![A, B, C]);
    let reached: Vec<u64> = platform.delivered.iter().map(|d| d.channel).collect();
    assert_eq!(reached, vec![C]);
}

#[test]
fn second_message_reuses_the_handle() {
    let mut registry = registry_of(&[A, B]);
    let mut platform = platform();
    let first = run_pass(&mut registry, &mut platform, message_from(A));
    let second = run_pass(&mut registry, &mut platform, message_from(A));
    assert!(first.iter().any(|a| matches!(a, Action::CreateHandle(_))));
    assert!(!second.iter().any(|a| matches!(a, Action::CreateHandle(_))));
    assert_eq!(platform.created, vec![B]);
    assert_eq!(platform.delivered.len(), 2);
    assert_eq!(platform.delivered[0].handle, platform.delivered[1].handle);
    assert_eq!(platform.handles.len(), 1);
}

#[test]
fn existing_relay_handle_is_used_among_others() {
    let (mut pass, _) = RelayPass::start(message_from(A));
    pass.advance(Event::Registered(true));
    pass.advance(Event::Channels(vec![A, B]));
    pass.advance(Event::Lookup(ChannelLookup::Postable));
    let handles = vec![
        ProxyHandle { id: 70, name: Some("announcements".to_string()) },
        ProxyHandle { id: 71, name: Some("gc-webhook".to_string()) },
        ProxyHandle { id: 72, name: Some("gc-webhook".to_string()) },
    ];
    match pass.advance(Event::Handles(handles)) {
        Action::Deliver(delivery) => {
            assert_eq!(delivery.handle, 71);
            assert_eq!(delivery.channel, B);
        }
        other => panic!("expected a delivery, got {:?}", other),
    }
    assert_eq!(pass.advance(Event::Completed), Action::Done);
}

#[test]
fn message_without_avatar_is_still_delivered() {
    let mut registry = registry_of(&[A, B]);
    let mut platform = platform();
    let mut message = message_from(A);
    message.avatar_url = None;
    run_pass(&mut registry, &mut platform, message);
    assert_eq!(platform.delivered.len(), 1);
    assert_eq!(platform.delivered[0].avatar_url, None);
    assert_eq!(platform.delivered[0].display_name, "alice");
    assert_eq!(platform.delivered[0].body, "good morning");
}

#[test]
fn duplicate_rows_in_the_listing_never_name_the_source() {
    let (mut pass, _) = RelayPass::start(message_from(A));
    pass.advance(Event::Registered(true));
    assert_eq!(pass.advance(Event::Channels(vec![A, B, A])), Action::LookupChannel(B));
    assert_eq!(pass.advance(Event::Lookup(ChannelLookup::NotPostable)), Action::Done);
}

#[test]
fn answer_of_the_wrong_kind_counts_as_failure() {
    let (mut pass, _) = RelayPass::start(message_from(A));
    pass.advance(Event::Registered(true));
    pass.advance(Event::Channels(vec![A, B, C]));
    assert_eq!(pass.advance(Event::Completed), Action::LookupChannel(C));
    assert_eq!(pass.advance(Event::Lookup(ChannelLookup::Postable)), Action::ListHandles(C));
    assert_eq!(pass.advance(Event::Registered(true)), Action::Done);
}

#[test]
fn serve_answers_registry_actions_only() {
    let mut registry = registry_of(&[A, B]);
    assert_eq!(serve(&mut registry, &Action::CheckRegistered(A)), Some(Event::Registered(true)));
    assert_eq!(serve(&mut registry, &Action::CheckRegistered(C)), Some(Event::Registered(false)));
    assert_eq!(serve(&mut registry, &Action::ListChannels), Some(Event::Channels(vec![A, B])));
    assert_eq!(serve(&mut registry, &Action::LookupChannel(B)), None);
    assert_eq!(serve(&mut registry, &Action::Done), None);
    assert_eq!(registry.list(), vec![A, B]);
    assert_eq!(serve(&mut registry, &Action::Unregister(B)), Some(Event::Completed));
    assert_eq!(registry.list(), vec![A]);
}

#[test]
fn pass_keeps_its_message() {
    let (pass, _) = RelayPass::start(message_from(A));
    assert_eq!(pass.message(), &message_from(A));
    assert!(!pass.is_finished());
}

#[test]
fn feed_message_opens_a_pass() {
    match all_event_handler(FeedEvent::Message(message_from(A))) {
        Reaction::Relay(pass, action) => {
            assert_eq!(action, Action::CheckRegistered(A));
            assert!(!pass.is_finished());
            assert_eq!(pass.message(), &message_from(A));
        }
        _ => panic!("a message must open a pass"),
    }
}

#[test]
fn feed_message_of_a_bot_opens_a_finished_pass() {
    let mut message = message_from(A);
    message.from_bot = true;
    match all_event_handler(FeedEvent::Message(message)) {
        Reaction::Relay(pass, action) => {
            assert_eq!(action, Action::Done);
            assert!(pass.is_finished());
        }
        _ => panic!("a message must open a pass"),
    }
}

#[test]
fn ready_signal_is_announced() {
    match all_event_handler(FeedEvent::Ready("relay-bot".to_string())) {
        Reaction::Announce(name) => assert_eq!(name, "relay-bot"),
        _ => panic!("the ready signal must be announced"),
    }
}

#[test]
fn other_feed_events_are_ignored() {
    assert!(matches!(all_event_handler(FeedEvent::Other), Reaction::Ignore));
}
