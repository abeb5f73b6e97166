//! Grants a role to whoever says the passphrase.
use vstd::prelude::*;

use crate::bot::host::{queued, same_thing, Bot, Host, HostModel};
use crate::bot::refs::RoleRef;
use crate::bot::types::{ActionModel, Event};
use crate::text::{chars_of, range_eq, trim, trim_range};

verus! {

pub struct Shibboleth {
    pub passphrase: String,
    pub role: RoleRef,
}

impl Bot for Shibboleth {
    open spec fn wf(&self) -> bool {
        true
    }

    open spec fn responds(
        &self,
        event: Event,
        before: HostModel,
        after: HostModel,
        r: Result<(), String>,
    ) -> bool {
        &&& r is Ok
        &&& after == (HostModel {
            queue: match event {
                Event::MessageCreate { message_id, channel, author, author_name, content } =>
                    if !same_thing(before.user, author, before.names) && trim(content@)
                        == self.passphrase@ {
                        queued(
                            before.queue,
                            ActionModel::AddRole { user: author, role: self.role },
                        )
                    } else {
                        before.queue
                    },
                _ => before.queue,
            },
            ..before
        })
    }

    fn handle_event(&self, event: &Event, host: &mut Host) -> (r: Result<(), String>) {
        if let Event::MessageCreate { content, author, .. } = event {
            let said = chars_of(content.as_str());
            let (from, to) = trim_range(said.as_slice(), 0, said.len());
            assert(said@.subrange(0, said@.len() as int) =~= said@);
            if !host.eq(host.bot_user(), *author) && range_eq(
                said.as_slice(),
                from,
                to,
                chars_of(self.passphrase.as_str()).as_slice(),
            ) {
                host.add_role(*author, self.role);
            }
        }
        Ok(())
    }
}

} // verus!
