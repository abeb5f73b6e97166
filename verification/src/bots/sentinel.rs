//! Reports deletions and edits in a watched channel.
use vstd::prelude::*;

use crate::bot::host::{queued, same_thing, Bot, Host, HostModel};
use crate::bot::refs::{ChannelRef, MessageRef, Ref};
use crate::bot::types::{ActionModel, Event};
use crate::text::{decimal, decimal_string};

verus! {

pub struct Sentinel {
    pub watched_cn: ChannelRef,
    pub alert_ch: ChannelRef,
}

/// The words about a message, with the references as they are written.
pub open spec fn report(message: MessageRef, verb: Seq<char>, channel: ChannelRef) -> Seq<char> {
    "Message MessageRef("@ + decimal(message.raw_value() as nat) + verb + "ChannelRef("@ + decimal(
        channel.raw_value() as nat,
    ) + ")"@
}

fn report_text(message: MessageRef, verb: &str, channel: ChannelRef) -> (r: String)
    ensures
        r@ == report(message, verb@, channel),
{
    let mut r = "Message MessageRef(".to_string();
    r.append(decimal_string(message.raw()).as_str());
    r.append(verb);
    r.append("ChannelRef(");
    r.append(decimal_string(channel.raw()).as_str());
    r.append(")");
    r
}

impl Bot for Sentinel {
    open spec fn wf(&self) -> bool {
        true
    }

    open spec fn responds(
        &self,
        event: Event,
        before: HostModel,
        after: HostModel,
        r: Result<(), String>,
    ) -> bool {
        &&& r is Ok
        &&& after == (HostModel {
            queue: match event {
                Event::MessageDelete { message, channel } => if same_thing(
                    self.watched_cn,
                    channel,
                    before.names,
                ) {
                    queued(
                        before.queue,
                        ActionModel::SendMessage {
                            channel: self.alert_ch,
                            content: report(message, ") was deleted in "@, channel),
                        },
                    )
                } else {
                    before.queue
                },
                Event::MessageUpdate { message, channel, content: Some(content) } =>
                    if same_thing(self.watched_cn, channel, before.names) {
                        queued(
                            before.queue,
                            ActionModel::SendMessage {
                                channel: self.alert_ch,
                                content: report(message, ") edited in "@, channel) + ": "@
                                    + content@,
                            },
                        )
                    } else {
                        before.queue
                    },
                _ => before.queue,
            },
            ..before
        })
    }

    fn handle_event(&self, event: &Event, host: &mut Host) -> (r: Result<(), String>) {
        match event {
            Event::MessageDelete { message, channel } => {
                if host.eq(self.watched_cn, *channel) {
                    let text = report_text(*message, ") was deleted in ", *channel);
                    host.send_message(self.alert_ch, text.as_str());
                }
            },
            Event::MessageUpdate { message, channel, content: Some(content) } => {
                if host.eq(self.watched_cn, *channel) {
                    let mut text = report_text(*message, ") edited in ", *channel);
                    text.append(": ");
                    text.append(content.as_str());
                    host.send_message(self.alert_ch, text.as_str());
                }
            },
            _ => {},
        }
        Ok(())
    }
}

} // verus!
