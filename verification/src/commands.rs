//! The two commands that opt a channel in and out.

use vstd::prelude::*;
use crate::registry::{Registry, with_channel, without};

verus! {

/// The one acknowledgment that a command gives.
#[derive(Clone, Copy, Debug, PartialEq, Eq, Structural)]
pub enum Reply {
    /// `join` on a channel that was absent.
    Joined,
    /// `join` on a channel that was registered already.
    AlreadyJoined,
    /// `leave` on a channel that was registered.
    Left,
    /// `leave` on a channel that was not registered.
    NotJoined,
    /// The store could not carry out the change.
    StoreFailed,
}

/// What a command asks the store to do.
#[derive(Clone, Copy, Debug, PartialEq, Eq, Structural)]
pub enum Change {
    /// Add the channel.
    Register,
    /// Take the channel out.
    Unregister,
    /// Leave the store alone.
    Nothing,
}

/// A command's decision: the change to make and the reply to give once the
/// change has been made.
#[derive(Clone, Copy, Debug, PartialEq, Eq, Structural)]
pub struct Plan {
    pub change: Change,
    pub reply: Reply,
}

/// What `join` does in a channel, given what the store says of it: `Some`
/// with whether the channel is registered, or `None` where it gave no answer.
pub open spec fn join_plan(present: Option<bool>) -> Plan {
    match present {
        Some(true) => Plan { change: Change::Nothing, reply: Reply::AlreadyJoined },
        Some(false) => Plan { change: Change::Register, reply: Reply::Joined },
        None => Plan { change: Change::Nothing, reply: Reply::StoreFailed },
    }
}

/// What `leave` does in a channel, given what the store says of it: `Some`
/// with whether the channel is registered, or `None` where it gave no answer.
pub open spec fn leave_plan(present: Option<bool>) -> Plan {
    match present {
        Some(true) => Plan { change: Change::Unregister, reply: Reply::Left },
        Some(false) => Plan { change: Change::Nothing, reply: Reply::NotJoined },
        None => Plan { change: Change::Nothing, reply: Reply::StoreFailed },
    }
}

/// Decides `join` for a channel of which the store says `present`.
pub fn plan_join(present: Option<bool>) -> (plan: Plan)
    ensures
        plan == join_plan(present),
{
    match present {
        Some(true) => Plan { change: Change::Nothing, reply: Reply::AlreadyJoined },
        Some(false) => Plan { change: Change::Register, reply: Reply::Joined },
        None => Plan { change: Change::Nothing, reply: Reply::StoreFailed },
    }
}

/// Decides `leave` for a channel of which the store says `present`.
pub fn plan_leave(present: Option<bool>) -> (plan: Plan)
    ensures
        plan == leave_plan(present),
{
    match present {
        Some(true) => Plan { change: Change::Unregister, reply: Reply::Left },
        Some(false) => Plan { change: Change::Nothing, reply: Reply::NotJoined },
        None => Plan { change: Change::Nothing, reply: Reply::StoreFailed },
    }
}

/// The reply to give once the store has answered: the planned one if the
/// change went through or none was asked for, else the report of a failure.
pub fn conclude(plan: Plan, change_succeeded: bool) -> (reply: Reply)
    ensures
        reply == if change_succeeded || plan.change == Change::Nothing {
            plan.reply
        } else {
            Reply::StoreFailed
        },
{
    if change_succeeded || plan.change == Change::Nothing {
        plan.reply
    } else {
        Reply::StoreFailed
    }
}

/// The text of each reply.
pub open spec fn reply_text(reply: Reply) -> Seq<char> {
    match reply {
        Reply::Joined => "Channel added to database"@,
        Reply::AlreadyJoined => "Channel already in database"@,
        Reply::Left => "Leave from GlobalChat"@,
        Reply::NotJoined => "You are't register yet."@,
        Reply::StoreFailed => "The channel list could not be updated"@,
    }
}

/// The text that the user sees for `reply`; no reply is without words.
pub fn reply_message(reply: Reply) -> (text: String)
    ensures
        text@ == reply_text(reply),
        text@.len() > 0,
{
    proof {
        reveal_strlit("Channel added to database");
        reveal_strlit("Channel already in database");
        reveal_strlit("Leave from GlobalChat");
        reveal_strlit("You are't register yet.");
        reveal_strlit("The channel list could not be updated");
    }
    match reply {
        Reply::Joined => "Channel added to database".to_owned(),
        Reply::AlreadyJoined => "Channel already in database".to_owned(),
        Reply::Left => "Leave from GlobalChat".to_owned(),
        Reply::NotJoined => "You are't register yet.".to_owned(),
        Reply::StoreFailed => "The channel list could not be updated".to_owned(),
    }
}

/// Opts `channel` into the relay: registers it where it is absent, and says
/// which of the two it was.
pub fn join(registry: &mut Registry, channel: u64) -> (reply: Reply)
    requires
        old(registry).wf(),
    ensures
        final(registry).wf(),
        final(registry)@ == with_channel(old(registry)@, channel),
        final(registry)@.contains(channel),
        reply == join_plan(Some(old(registry)@.contains(channel))).reply,
{
    let plan = plan_join(Some(registry.is_registered(channel)));
    match plan.change {
        Change::Register => {
            registry.register(channel);
        },
        _ => {},
    }
    plan.reply
}

/// Opts `channel` out of the relay: takes it out where it is registered, and
/// says which of the two it was.
pub fn leave(registry: &mut Registry, channel: u64) -> (reply: Reply)
    requires
        old(registry).wf(),
    ensures
        final(registry).wf(),
        final(registry)@ == without(old(registry)@, channel),
        !final(registry)@.contains(channel),
        reply == leave_plan(Some(old(registry)@.contains(channel))).reply,
{
    let plan = plan_leave(Some(registry.is_registered(channel)));
    match plan.change {
        Change::Unregister => {
            registry.unregister(channel);
        },
        _ => {
            proof {
                crate::registry::lemma_without(registry@, channel);
            }
        },
    }
    plan.reply
}

} // verus!
