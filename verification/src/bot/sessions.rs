//! The course of a session: connecting, events, reloads, actions, and what
//! follows its end.
use vstd::prelude::*;

use crate::bot::host::action_ok;
use crate::bot::refs::RefRegistry;
use crate::bot::runner::{
    converts_to, finish_is, plan_is, seeded, FatalError, Follow, Plan, Runner, SessionExit,
    SessionStart, SkipReason,
};
use crate::bot::state::StateModel;
use crate::bot::tracker::{channels_after, roles_after, Seen};
use crate::bot::types::{Action, Event};
use crate::discord::api::ApiRequest;
use crate::discord::error::Error;
use crate::discord::message;
use crate::discord::session::PollError;

verus! {

/// What resumes a session.
pub enum SessionEvent {
    Begin,
    /// A session was established, with these guilds, or not.
    Connected(Result<Vec<u64>, Error>),
    /// The configuration has changed: the stable names of the new one, or
    /// nothing if it cannot be used.
    Reloaded(Option<RefRegistry>),
    Polled(Result<Option<message::Event>, PollError>),
    /// The event was handled.
    Handled,
}

/// What is to be done next in a session.
#[derive(Debug)]
pub enum SessionStep {
    Connect(SessionStart),
    /// Look for a changed configuration, and else poll the gateway.
    Poll,
    /// Nothing has happened: flush the log, then poll.
    Rest,
    /// Save the state if so said, then let the bot handle the event.
    Handle { event: Event, save: bool },
    Exit(SessionExit),
}

/// How one run ends.
#[derive(Debug)]
pub enum AfterSession {
    /// Begin another session after that many seconds.
    RetryIn { seconds: u64, error: Error },
    Stop(FatalError),
}

/// `after` is `before` made ready for a start: names that were not known are
/// looked up in the guild, and all names are resolved.
pub open spec fn started(before: Runner, after: Runner, save: bool) -> bool {
    &&& after.wf()
    &&& after.tracker == before.tracker
    &&& after.guild_id == before.guild_id
    &&& after.resume_data == before.resume_data
    &&& after.state@ == (StateModel {
        channels: seeded(
            before.state@.channels,
            before.registry.model().channels.names,
            before.tracker.channels.seen(),
        ),
        roles: seeded(
            before.state@.roles,
            before.registry.model().roles.names,
            before.tracker.roles.seen(),
        ),
        managed: before.state@.managed,
    })
    &&& after.registry.model() == before.registry.model().normalized(
        after.state@.channels,
        after.state@.roles,
        after.state@.managed,
    )
    &&& save == (after.state@ != before.state@)
}

/// What a gateway event does in a session.
pub open spec fn raw_leads_to(
    before: Runner,
    raw: message::Event,
    after: Runner,
    step: SessionStep,
) -> bool {
    match raw {
        message::Event::Resumed => {
            &&& step matches SessionStep::Handle { event: Event::Started, save }
            &&& started(before, after, save)
        },
        message::Event::GuildCreate(gc) => if gc.id == before.guild_id {
            &&& step matches SessionStep::Handle { event: Event::Started, save }
            &&& exists|seen: Runner|
                guild_noted(before, gc, seen) && #[trigger] started(seen, after, save)
        } else {
            after == before && step == SessionStep::Rest
        },
        raw => {
            &&& after.same_as(before)
            &&& match step {
                SessionStep::Handle { event, save } => converts_to(raw, Some(event)) && !save,
                SessionStep::Rest => converts_to(raw, None),
                _ => false,
            }
        },
    }
}

/// `after` is `before` with a guild's channels and roles noted.
pub open spec fn guild_noted(before: Runner, gc: message::GuildCreate, after: Runner) -> bool {
    &&& after.wf()
    &&& after.registry == before.registry
    &&& after.state == before.state
    &&& after.guild_id == before.guild_id
    &&& after.resume_data == before.resume_data
    &&& after.tracker.channels.seen() == channels_after(
        before.tracker.channels.seen(),
        gc.channels@,
    )
    &&& after.tracker.roles.seen() == roles_after(before.tracker.roles.seen(), gc.roles@)
}

/// What an event does to a session, and what is to be done next.
pub open spec fn session_leads_to(
    before: Runner,
    event: SessionEvent,
    after: Runner,
    step: SessionStep,
) -> bool {
    match event {
        SessionEvent::Begin => {
            &&& after == (Runner { resume_data: None, ..before })
            &&& step == SessionStep::Connect(
                match before.resume_data {
                    Some(data) => SessionStart::Resume(data),
                    None => SessionStart::Connect,
                },
            )
        },
        SessionEvent::Connected(result) => {
            &&& after == before
            &&& step == (match result {
                Err(e) => SessionStep::Exit(SessionExit::Retry(e)),
                Ok(guild_ids) => if guild_ids@.contains(before.guild_id) {
                    SessionStep::Poll
                } else {
                    SessionStep::Exit(
                        SessionExit::Fatal(FatalError::GuildNotFound(before.guild_id)),
                    )
                },
            })
        },
        SessionEvent::Reloaded(Some(registry)) => {
            &&& step matches SessionStep::Handle { event: Event::Started, save }
            &&& started(Runner { registry, ..before }, after, save)
        },
        SessionEvent::Reloaded(None) => after == before && step == SessionStep::Rest,
        SessionEvent::Polled(Ok(Some(raw))) => raw_leads_to(before, raw, after, step),
        SessionEvent::Polled(Ok(None)) => after == before && step == SessionStep::Rest,
        SessionEvent::Polled(Err(error)) => match error {
            PollError::Resume { error, session } => {
                &&& after.same_as(Runner { resume_data: Some(*session), ..before })
                &&& step == SessionStep::Exit(SessionExit::Retry(error))
            },
            PollError::Reconnect(error) => {
                &&& after.same_as(before)
                &&& step == SessionStep::Exit(SessionExit::Retry(error))
            },
            PollError::Fatal(error) => {
                &&& after.same_as(before)
                &&& step == SessionStep::Exit(SessionExit::Fatal(FatalError::Gateway(error)))
            },
            PollError::Transient(_) => after.same_as(before) && step == SessionStep::Rest,
            PollError::NotConnected => {
                &&& after.same_as(before)
                &&& step == SessionStep::Exit(SessionExit::Fatal(FatalError::NotConnected))
            },
        },
        SessionEvent::Handled => after == before && step == SessionStep::Poll,
    }
}

impl Runner {
    /// All parts are the same.
    pub open spec fn same_as(self, other: Runner) -> bool {
        &&& self.registry == other.registry
        &&& self.state == other.state
        &&& self.tracker == other.tracker
        &&& self.guild_id == other.guild_id
        &&& self.resume_data == other.resume_data
    }

    fn start_session(&mut self) -> (r: SessionStep)
        requires
            old(self).wf(),
        ensures
            final(self).wf(),
            r matches SessionStep::Handle { event: Event::Started, save } && started(
                *old(self),
                *final(self),
                save,
            ),
    {
        let save: bool = self.start();
        SessionStep::Handle { event: Event::Started, save }
    }

    /// Go on with a session.
    pub fn run_session(&mut self, event: SessionEvent) -> (r: SessionStep)
        requires
            old(self).wf(),
            event matches SessionEvent::Reloaded(Some(registry)) ==> registry.wf(),
        ensures
            final(self).wf(),
            session_leads_to(*old(self), event, *final(self), r),
    {
        match event {
            SessionEvent::Begin => SessionStep::Connect(self.begin_session()),
            SessionEvent::Connected(result) => match result {
                Err(e) => SessionStep::Exit(SessionExit::Retry(e)),
                Ok(guild_ids) => match self.check_guild(guild_ids.as_slice()) {
                    Ok(()) => SessionStep::Poll,
                    Err(exit) => SessionStep::Exit(exit),
                },
            },
            SessionEvent::Reloaded(Some(registry)) => {
                self.registry = registry;
                self.start_session()
            },
            SessionEvent::Reloaded(None) => SessionStep::Rest,
            SessionEvent::Polled(Ok(Some(raw))) => {
                let event = self.on_event(&raw);
                let ghost seen = *self;
                match event {
                    None => SessionStep::Rest,
                    Some(Event::Started) => {
                        let r = self.start_session();
                        proof {
                            if let message::Event::GuildCreate(gc) = raw {
                                assert(guild_noted(*old(self), gc, seen));
                            }
                        }
                        r
                    },
                    Some(event) => SessionStep::Handle { event, save: false },
                }
            },
            SessionEvent::Polled(Ok(None)) => SessionStep::Rest,
            SessionEvent::Polled(Err(error)) => match self.on_poll_error(error) {
                Some(exit) => SessionStep::Exit(exit),
                None => SessionStep::Rest,
            },
            SessionEvent::Handled => SessionStep::Poll,
        }
    }

    /// What follows a session's end: another one after a while, or nothing.
    pub fn run_inner(&mut self, exit: SessionExit) -> (r: AfterSession)
        requires
            old(self).wf(),
        ensures
            final(self).wf(),
            match exit {
                SessionExit::Fatal(e) => r == AfterSession::Stop(e) && *final(self) == *old(self),
                SessionExit::Retry(e) => {
                    let resuming = old(self).resume_data is Some;
                    &&& r == (AfterSession::RetryIn {
                        seconds: if resuming {
                            1
                        } else {
                            5
                        },
                        error: e,
                    })
                    &&& final(self).registry == old(self).registry
                    &&& final(self).state == old(self).state
                    &&& final(self).guild_id == old(self).guild_id
                    &&& final(self).resume_data == old(self).resume_data
                    &&& resuming ==> final(self).tracker == old(self).tracker
                    &&& !resuming ==> final(self).tracker.channels.seen() == Seq::<Seen>::empty()
                        && final(self).tracker.roles.seen() == Seq::<Seen>::empty()
                },
            },
    {
        match exit {
            SessionExit::Fatal(e) => AfterSession::Stop(e),
            SessionExit::Retry(error) => {
                let seconds: u64 = self.retry_delay();
                AfterSession::RetryIn { seconds, error }
            },
        }
    }
}

/// Actions that are being carried out, in order.
#[derive(Debug)]
pub struct Execution {
    actions: Vec<Action>,
    next: usize,
}

/// What resumes an execution.
#[derive(Debug)]
pub enum ExecutionEvent {
    Begin,
    /// The request was answered, or failed.
    Answered { follow: Follow, answer: Result<(u16, String), Error> },
}

/// A step of an execution.
#[derive(Debug)]
pub struct ExecutionStep {
    /// Whether the state is to be saved, or why the last action failed.
    pub finished: Result<bool, Error>,
    /// Why actions were skipped, in order.
    pub skipped: Vec<SkipReason>,
    /// The next request, and what to report its answer with; `None` at the
    /// end.
    pub call: Option<(ApiRequest, Follow)>,
}

impl Execution {
    pub closed spec fn actions(&self) -> Seq<Action> {
        self.actions@
    }

    /// How many actions have been dealt with.
    pub closed spec fn done(&self) -> int {
        self.next as int
    }

    /// Not more actions were dealt with than there are, and each of them can be
    /// carried out.
    pub open spec fn wf(&self) -> bool {
        &&& 0 <= self.done() <= self.actions().len()
        &&& forall|i: int|
            0 <= i < self.actions().len() ==> action_ok((#[trigger] self.actions()[i])@)
    }

    pub fn new(actions: Vec<Action>) -> (r: Self)
        requires
            forall|i: int| 0 <= i < actions@.len() ==> action_ok((#[trigger] actions@[i])@),
        ensures
            r.wf(),
            r.actions() == actions@,
            r.done() == 0,
    {
        Execution { actions, next: 0 }
    }
}

/// The actions from `from` to `to` are skipped for those reasons.
pub open spec fn all_skipped(
    runner: Runner,
    actions: Seq<Action>,
    from: int,
    to: int,
    reasons: Seq<SkipReason>,
) -> bool {
    &&& from <= to <= actions.len()
    &&& reasons.len() == to - from
    &&& forall|i: int|
        from <= i < to ==> plan_is(
            (#[trigger] actions[i])@,
            runner.registry.model(),
            runner.state@.managed,
            runner.guild_id,
            Plan::Skip(reasons[i - from]),
        )
}

impl Runner {
    /// Go on carrying out actions: take in the last answer, then skip what
    /// cannot be carried out, up to the next request.
    pub fn execute_actions(&mut self, execution: &mut Execution, event: ExecutionEvent) -> (r:
        ExecutionStep)
        requires
            old(self).wf(),
            old(execution).wf(),
        ensures
            final(self).wf(),
            final(execution).wf(),
            final(execution).actions() == old(execution).actions(),
            match event {
                ExecutionEvent::Begin => {
                    &&& *final(self) == *old(self)
                    &&& r.finished == Ok::<bool, Error>(false)
                },
                ExecutionEvent::Answered { follow, answer } => finish_is(
                    *old(self),
                    follow,
                    answer,
                    r.finished,
                    *final(self),
                ),
            },
            ({
                let actions = old(execution).actions();
                let from = old(execution).done();
                match r.call {
                    None => {
                        &&& final(execution).done() == actions.len()
                        &&& all_skipped(
                            *final(self),
                            actions,
                            from,
                            actions.len() as int,
                            r.skipped@,
                        )
                    },
                    Some((request, follow)) => {
                        let at = final(execution).done() - 1;
                        &&& from <= at < actions.len()
                        &&& all_skipped(*final(self), actions, from, at, r.skipped@)
                        &&& plan_is(
                            actions[at]@,
                            final(self).registry.model(),
                            final(self).state@.managed,
                            final(self).guild_id,
                            Plan::Call { request, follow },
                        )
                    },
                }
            }),
    {
        let finished: Result<bool, Error> = match event {
            ExecutionEvent::Begin => Ok(false),
            ExecutionEvent::Answered { follow, answer } => self.finish(follow, answer),
        };
        let mut skipped: Vec<SkipReason> = Vec::new();
        let ghost from = execution.next as int;
        let ghost here = *self;
        while execution.next < execution.actions.len()
            invariant
                self.wf(),
                *self == here,
                execution.wf(),
                execution.actions@ == old(execution).actions@,
                from == old(execution).next,
                from <= execution.next <= execution.actions@.len(),
                all_skipped(*self, execution.actions@, from, execution.next as int, skipped@),
                match event {
                    ExecutionEvent::Begin => {
                        &&& here == *old(self)
                        &&& finished == Ok::<bool, Error>(false)
                    },
                    ExecutionEvent::Answered { follow, answer } => finish_is(
                        *old(self),
                        follow,
                        answer,
                        finished,
                        here,
                    ),
                },
            decreases execution.actions@.len() - execution.next,
        {
            let at: usize = execution.next;
            assert(action_ok(execution.actions()[at as int]@));
            let ghost reasons = skipped@;
            let plan = self.plan(&execution.actions[at]);
            execution.next = at + 1;
            match plan {
                Plan::Skip(reason) => {
                    skipped.push(reason);
                    assert forall|i: int| from <= i < at + 1 implies plan_is(
                        (#[trigger] execution.actions@[i])@,
                        self.registry.model(),
                        self.state@.managed,
                        self.guild_id,
                        Plan::Skip(skipped@[i - from]),
                    ) by {
                        if i < at {
                            assert(skipped@[i - from] == reasons[i - from]);
                        }
                    }
                },
                Plan::Call { request, follow } => {
                    return ExecutionStep { finished, skipped, call: Some((request, follow)) };
                },
            }
        }
        ExecutionStep { finished, skipped, call: None }
    }
}

} // verus!
