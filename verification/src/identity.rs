//! Posting handles: which of a channel's handles the relay posts through, and
//! what one relayed message looks like when it is posted.

use vstd::prelude::*;

verus! {

/// A message as it arrived from the platform.
#[derive(Clone, Debug, PartialEq, Eq)]
pub struct InboundMessage {
    /// The author's display name.
    pub author_name: String,
    /// Where the author's avatar is found, if the author has one.
    pub avatar_url: Option<String>,
    /// The text of the message.
    pub body: String,
    /// The channel in which the message was posted.
    pub source_channel: u64,
    /// Whether a bot, this relay included, wrote the message.
    pub from_bot: bool,
}

/// A posting handle that stands on some channel.
#[derive(Clone, Debug, PartialEq, Eq)]
pub struct ProxyHandle {
    /// The platform's identifier of the handle.
    pub id: u64,
    /// The handle's name, if it has one.
    pub name: Option<String>,
}

/// One relayed copy of a message: where it goes, through which handle, and
/// under whose name and avatar.
#[derive(Clone, Debug, PartialEq, Eq)]
pub struct Delivery {
    /// The destination channel.
    pub channel: u64,
    /// The posting handle on that channel.
    pub handle: u64,
    /// The name under which the copy appears.
    pub display_name: String,
    /// The avatar under which the copy appears; `None` leaves the handle's own.
    pub avatar_url: Option<String>,
    /// The text of the copy.
    pub body: String,
}

/// The name by which the relay finds its own handle on a channel again.
pub open spec fn relay_name() -> Seq<char> {
    "gc-webhook"@
}

/// The name that the relay gives to the handles it creates.
pub fn reserved_name() -> (name: String)
    ensures
        name@ == relay_name(),
{
    "gc-webhook".to_owned()
}

/// Whether a handle carries the relay's reserved name.
pub open spec fn is_relay_handle(handle: ProxyHandle) -> bool {
    handle.name matches Some(name) && name@ == relay_name()
}

/// The place of the first relay handle at or after `from`, if there is one.
pub open spec fn first_relay_handle_from(handles: Seq<ProxyHandle>, from: int) -> Option<int>
    decreases handles.len() - from,
{
    if from < 0 || from >= handles.len() {
        None
    } else if is_relay_handle(handles[from]) {
        Some(from)
    } else {
        first_relay_handle_from(handles, from + 1)
    }
}

/// The place of the first handle that carries the reserved name, if any does.
pub open spec fn first_relay_handle(handles: Seq<ProxyHandle>) -> Option<int> {
    first_relay_handle_from(handles, 0)
}

/// `first_relay_handle_from` finds the earliest relay handle from `from` on,
/// and finds none only where there is none.
pub proof fn lemma_first_relay_handle_from(handles: Seq<ProxyHandle>, from: int)
    requires
        0 <= from,
    ensures
        match first_relay_handle_from(handles, from) {
            Some(i) => {
                &&& from <= i < handles.len()
                &&& is_relay_handle(handles[i])
                &&& forall|j: int| from <= j < i ==> !is_relay_handle(#[trigger] handles[j])
            },
            None => forall|j: int|
                from <= j < handles.len() ==> !is_relay_handle(#[trigger] handles[j]),
        },
    decreases handles.len() - from,
{
    if from < handles.len() && !is_relay_handle(handles[from]) {
        lemma_first_relay_handle_from(handles, from + 1);
    }
}

/// Whether `handle` carries the reserved name.
pub fn carries_relay_name(handle: &ProxyHandle) -> (yes: bool)
    ensures
        yes == is_relay_handle(*handle),
{
    match &handle.name {
        Some(name) => {
            let reserved = reserved_name();
            *name == reserved
        },
        None => false,
    }
}

/// Picks the handle to post through among those that stand on a channel: the
/// first that carries the reserved name. `None` says that one must be created.
pub fn find_relay_handle(handles: &Vec<ProxyHandle>) -> (found: Option<usize>)
    ensures
        match found {
            Some(i) => first_relay_handle(handles@) == Some(i as int),
            None => first_relay_handle(handles@).is_none(),
        },
        match found {
            Some(i) => {
                &&& i < handles.len()
                &&& is_relay_handle(handles@[i as int])
                &&& forall|j: int| 0 <= j < i ==> !is_relay_handle(#[trigger] handles@[j])
            },
            None => forall|j: int|
                0 <= j < handles.len() ==> !is_relay_handle(#[trigger] handles@[j]),
        },
{
    let mut i: usize = 0;
    while i < handles.len()
        invariant
            i <= handles.len(),
            first_relay_handle(handles@) == first_relay_handle_from(handles@, i as int),
        decreases handles.len() - i,
    {
        if carries_relay_name(&handles[i]) {
            proof {
                lemma_first_relay_handle_from(handles@, 0);
            }
            return Some(i);
        }
        i += 1;
    }
    proof {
        lemma_first_relay_handle_from(handles@, 0);
    }
    None
}

/// The copy of `message` that goes to `channel` through `handle`: the author's
/// name, the author's avatar where there is one, and the text, all unchanged.
pub open spec fn delivery_of(message: InboundMessage, channel: u64, handle: u64) -> Delivery {
    Delivery {
        channel,
        handle,
        display_name: message.author_name,
        avatar_url: message.avatar_url,
        body: message.body,
    }
}

/// Builds the copy of `message` that goes to `channel` through `handle`.
pub fn compose(message: &InboundMessage, channel: u64, handle: u64) -> (delivery: Delivery)
    ensures
        delivery == delivery_of(*message, channel, handle),
{
    let avatar_url = match &message.avatar_url {
        Some(url) => Some(url.clone()),
        None => None,
    };
    Delivery {
        channel,
        handle,
        display_name: message.author_name.clone(),
        avatar_url,
        body: message.body.clone(),
    }
}

} // verus!
