//! Logs every event.
use vstd::prelude::*;

use crate::bot::host::{logged_after, Bot, Host, HostModel};
use crate::bot::types::Event;

verus! {

pub struct Logger {}

impl Bot for Logger {
    open spec fn wf(&self) -> bool {
        true
    }

    open spec fn responds(
        &self,
        event: Event,
        before: HostModel,
        after: HostModel,
        r: Result<(), String>,
    ) -> bool {
        &&& r is Ok
        &&& after == (HostModel {
            queue: before.queue,
            logged: logged_after(before.logged, event, before.names),
            ..before
        })
    }

    fn handle_event(&self, event: &Event, host: &mut Host) -> (r: Result<(), String>) {
        host.log(event);
        Ok(())
    }
}

} // verus!
