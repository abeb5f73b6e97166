//! The client's view of the gateway session.
use vstd::prelude::*;

use crate::discord::error::Error;
use crate::discord::message::Event;
use crate::discord::session::{
    classify_poll_error, poll_error_of, poll_leads_to, PollError, PollEvent,
    PollStep, Session,
};

verus! {

/// A bot client: its token, and its gateway session while it has one.
#[derive(Debug)]
pub struct Client {
    pub session: Option<Session>,
    pub token: String,
}

/// Where a poll stands.
#[derive(Debug)]
pub enum PollProgress {
    /// What the session asks for is to be done.
    Pending(PollStep),
    /// The poll is over: an event, or silence, or an error.
    Done(Result<Option<Event>, PollError>),
}

/// What a session's step comes to for the client: an error is classified, and
/// decides whether the session stays.
pub open spec fn client_step(
    s1: Session,
    step: PollStep,
    r: PollProgress,
    kept: Option<Session>,
) -> bool {
    match step {
        PollStep::Done(Ok(event)) => r == PollProgress::Done(Ok(event)) && kept == Some(s1),
        PollStep::Done(Err(e)) => {
            &&& r matches PollProgress::Done(Err(error))
            &&& poll_error_of(e, s1, error, kept)
        },
        step => r == PollProgress::Pending(step) && kept == Some(s1),
    }
}

impl Client {
    pub fn new(token: String) -> (r: Self)
        ensures
            r == (Client { session: None, token }),
    {
        Client { session: None, token }
    }

    /// A session has been established.
    pub fn connected(&mut self, session: Session)
        ensures
            *final(self) == (Client { session: Some(session), ..*old(self) }),
    {
        self.session = Some(session);
    }

    /// Go on polling the gateway for the next event.  Errors are classified by
    /// the action the caller should take.
    pub fn poll(&mut self, event: PollEvent, now: u64) -> (r: PollProgress)
        ensures
            final(self).token == old(self).token,
            match old(self).session {
                None => {
                    &&& r == PollProgress::Done(Err(PollError::NotConnected))
                    &&& final(self).session is None
                },
                Some(s) => exists|s1: Session, step: PollStep|
                    #[trigger] poll_leads_to(s, event, now, s1, step) && client_step(
                        s1,
                        step,
                        r,
                        final(self).session,
                    ),
            },
    {
        let mut taken: Option<Session> = None;
        std::mem::swap(&mut taken, &mut self.session);
        match taken {
            None => PollProgress::Done(Err(PollError::NotConnected)),
            Some(session) => {
                let mut session = session;
                let step = session.poll(event, now);
                let ghost s1 = session;
                assert(poll_leads_to(old(self).session->0, event, now, s1, step));
                match step {
                    PollStep::Done(Ok(event)) => {
                        self.session = Some(session);
                        PollProgress::Done(Ok(event))
                    },
                    PollStep::Done(Err(e)) => {
                        let (error, kept) = classify_poll_error(e, session);
                        self.session = kept;
                        PollProgress::Done(Err(error))
                    },
                    step => {
                        self.session = Some(session);
                        PollProgress::Pending(step)
                    },
                }
            },
        }
    }

    /// The bot's user ID from the current session.
    pub fn bot_user_id(&self) -> (r: Result<u64, Error>)
        ensures
            r == (match self.session {
                Some(s) => Ok::<u64, Error>(s.data.bot_user_id),
                None => Err(Error::NotConnected),
            }),
    {
        match &self.session {
            Some(s) => Ok(s.data.bot_user_id),
            None => Err(Error::NotConnected),
        }
    }

    /// The guild IDs from the READY payload.
    pub fn guild_ids(&self) -> (r: Result<&[u64], Error>)
        ensures
            match self.session {
                Some(s) => r matches Ok(ids) && ids@ == s.data.guild_ids@,
                None => r == Err::<&[u64], Error>(Error::NotConnected),
            },
    {
        match &self.session {
            Some(s) => Ok(s.data.guild_ids.as_slice()),
            None => Err(Error::NotConnected),
        }
    }
}

} // verus!
