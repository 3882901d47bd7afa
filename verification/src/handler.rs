//! The event router's decisions. Each platform event is reduced to plain
//! values before it reaches this module; each function here decides, with
//! no side effect, what the event leads to: whether a message or a new
//! thread triggers a resolution, and what an admin command does to the
//! enabled-channel set. The surrounding program performs the fetches, posts and file
//! writes these decisions call for.

use vstd::prelude::*;
use crate::extract::{find_identifier, has_some_match, extracted_id};
use crate::channel_state::{ChannelState, parse_channel_list, render_channel_list};
use crate::text::str_eq;

verus! {

/// The router's state: the enabled-channel set, loaded once at startup.
pub struct Handler {
    enabled_channels: ChannelState,
}

/// The visible effect of one recognised admin command: the channel file text
/// to persist, and the confirmation reply to acknowledge with.
pub struct CommandEffect {
    pub persisted: String,
    pub reply: String,
}

impl Handler {
    /// The set of channels where resolution is active.
    pub closed spec fn enabled(&self) -> Set<u64> {
        self.enabled_channels@
    }

    /// The stored channel identifiers, in stored order.
    pub closed spec fn enabled_list(&self) -> Seq<u64> {
        self.enabled_channels.id_list()
    }

    pub closed spec fn wf(&self) -> bool {
        self.enabled_channels.wf()
    }

    /// Builds the router from the persisted channel file's content (`None`
    /// for an absent file); malformed content starts the set empty.
    pub fn new(saved: Option<&str>) -> (h: Self)
        ensures
            h.wf(),
            match saved {
                Option::None => h.enabled() == Set::<u64>::empty(),
                Option::Some(t) => match parse_channel_list(t@) {
                    Option::Some(ids) => h.enabled() == ids.to_set(),
                    Option::None => h.enabled() == Set::<u64>::empty(),
                },
            },
    {
        Handler { enabled_channels: ChannelState::new(saved) }
    }

    /// Decides what a posted message triggers: the identifier to resolve,
    /// exactly when the message's channel is enabled and the body
    /// holds an identifier occurrence.
    pub fn message_trigger(&self, channel_id: u64, content: &str) -> (r: Option<String>)
        ensures
            r is Some <==> self.enabled().contains(channel_id) && has_some_match(content@),
            r is Some ==> r->0@ == extracted_id(content@),
    {
        if !self.enabled_channels.contains(channel_id) {
            return Option::None;
        }
        find_identifier(content)
    }

    /// Decides what a newly created thread triggers: the identifier to
    /// resolve, exactly when the thread has a parent channel, that parent
    /// is enabled, and the thread's name holds an identifier
    /// occurrence.
    pub fn thread_trigger(&self, parent_id: Option<u64>, thread_name: &str) -> (r: Option<
        String,
    >)
        ensures
            r is Some <==> parent_id is Some && self.enabled().contains(parent_id->0)
                && has_some_match(thread_name@),
            r is Some ==> r->0@ == extracted_id(thread_name@),
    {
        let parent = match parent_id {
            Option::Some(p) => p,
            Option::None => {
                return Option::None;
            },
        };
        if !self.enabled_channels.contains(parent) {
            return Option::None;
        }
        find_identifier(thread_name)
    }

    /// Applies one slash-command interaction to the enabled set. `enable` adds
    /// the invoking channel, `disable` removes it; either yields the
    /// file text to persist and the confirmation reply. Any other command
    /// name is ignored and changes nothing.
    pub fn interaction_create(&mut self, command_name: &str, channel_id: u64) -> (r: Option<
        CommandEffect,
    >)
        requires
            old(self).wf(),
        ensures
            final(self).wf(),
            command_name@ == ("enable")@ ==> final(self).enabled() == old(self).enabled().insert(
                channel_id,
            ) && r is Some && r->0.reply@ == ("Enabled the bot in this channel")@,
            command_name@ == ("disable")@ ==> final(self).enabled() == old(self).enabled().remove(
                channel_id,
            ) && r is Some && r->0.reply@ == ("Disabled the bot in this channel")@,
            command_name@ != ("enable")@ && command_name@ != ("disable")@ ==> *final(self)
                == *old(self) && r is None,
            r is Some ==> r->0.persisted@ == render_channel_list(final(self).enabled_list())
                && parse_channel_list(r->0.persisted@) == Option::Some(final(self).enabled_list())
                && final(self).enabled_list().to_set() == final(self).enabled(),
    {
        proof {
            reveal_strlit("enable");
            reveal_strlit("disable");
            assert(("enable")@.len() != ("disable")@.len());
        }
        if str_eq(command_name, "enable") {
            self.enabled_channels.add(channel_id);
            let persisted = self.enabled_channels.save();
            return Option::Some(
                CommandEffect {
                    persisted,
                    reply: String::from_str("Enabled the bot in this channel"),
                },
            );
        }
        if str_eq(command_name, "disable") {
            self.enabled_channels.remove(channel_id);
            let persisted = self.enabled_channels.save();
            return Option::Some(
                CommandEffect {
                    persisted,
                    reply: String::from_str("Disabled the bot in this channel"),
                },
            );
        }
        Option::None
    }
}

} // verus!
