//! Repeats what is said.
use vstd::prelude::*;

use crate::bot::host::{queued, same_thing, Bot, Host, HostModel};
use crate::bot::types::{ActionModel, Event};

verus! {

pub struct Echo {}

impl Bot for Echo {
    open spec fn wf(&self) -> bool {
        true
    }

    open spec fn responds(
        &self,
        event: Event,
        before: HostModel,
        after: HostModel,
        r: Result<(), String>,
    ) -> bool {
        &&& r is Ok
        &&& after == (HostModel {
            queue: match event {
                Event::MessageCreate { message_id, channel, author, author_name, content } =>
                    if content@.len() > 0 && !same_thing(
                        before.user,
                        author,
                        before.names,
                    ) {
                        queued(
                            before.queue,
                            ActionModel::SendMessage { channel, content: content@ },
                        )
                    } else {
                        before.queue
                    },
                _ => before.queue,
            },
            ..before
        })
    }

    fn handle_event(&self, event: &Event, host: &mut Host) -> (r: Result<(), String>) {
        if let Event::MessageCreate { channel, author, content, .. } = event {
            if !content.as_str().is_empty() && !host.eq(host.bot_user(), *author) {
                host.send_message(*channel, content.as_str());
            }
        }
        Ok(())
    }
}

} // verus!
