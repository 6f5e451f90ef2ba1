use vstd::prelude::*;
use crate::model::GiftStatus;
use crate::naming::{is_valid_name, name_is_valid, same_text};

verus! {

/// Interval of the keepalive ping, in seconds.
pub const PING_INTERVAL_SECS: u64 = 30;

/// Silence after which a session is closed, in seconds.
pub const IDLE_TIMEOUT_SECS: u64 = 150;

/// What a session knows: the resource of its scan run, if one runs, and when
/// the client was last heard from.
pub struct SessionView {
    pub active: Option<Seq<char>>,
    pub last_activity: u64,
}

/// What the connection loop is to do after an input.
pub enum SessionAction {
    /// Stop the current scan run when `cancel_previous` holds, then start one
    /// over `resource` and forward its discoveries from now on.
    Start { resource: String, cancel_previous: bool },
    /// Nothing to do.
    Ignore,
    /// Send a keepalive ping.
    Ping,
    /// Close the connection, stopping the scan run when `cancel_scan` holds.
    Close { cancel_scan: bool },
}

/// State of one client connection.
pub struct Session {
    active: Option<String>,
    last_activity: u64,
}

impl View for Session {
    type V = SessionView;

    closed spec fn view(&self) -> SessionView {
        SessionView {
            active: match self.active {
                Some(r) => Some(r@),
                None => None,
            },
            last_activity: self.last_activity,
        }
    }
}

/// The session after a text frame arrives at `now`: a valid resource name
/// replaces the active one; any frame counts as activity.
pub open spec fn text_spec(s: SessionView, text: Seq<char>, now: u64) -> SessionView {
    SessionView {
        active: if is_valid_name(text) { Some(text) } else { s.active },
        last_activity: now,
    }
}

/// A text frame that starts a run while another one is active.
pub open spec fn supersedes(s: SessionView, text: Seq<char>) -> bool {
    is_valid_name(text) && s.active is Some
}

/// The session has been silent for longer than the idle threshold.
pub open spec fn idle_spec(s: SessionView, now: u64) -> bool {
    now as int > s.last_activity as int + IDLE_TIMEOUT_SECS as int
}

/// A discovery for `name` is forwarded on this session.
pub open spec fn forwards_spec(s: SessionView, name: Seq<char>) -> bool {
    s.active == Some(name)
}

/// Only a valid resource name is ever active.
pub open spec fn active_valid(s: SessionView) -> bool {
    s.active is Some ==> is_valid_name(s.active->0)
}

impl Session {
    #[verifier::type_invariant]
    spec fn inv(&self) -> bool {
        active_valid(self@)
    }

    /// A new connection, opened at `now`, with no scan run.
    pub fn new(now: u64) -> (r: Session)
        ensures
            r@ == (SessionView { active: None, last_activity: now }),
    {
        Session { active: None, last_activity: now }
    }

    /// The resource of the current scan run, if any.
    pub fn active(&self) -> (r: Option<&str>)
        ensures
            r is Some <==> self@.active is Some,
            r is Some ==> r->0@ == self@.active->0,
            r is Some ==> is_valid_name(r->0@),
    {
        proof {
            use_type_invariant(self);
        }
        match &self.active {
            Some(s) => Some(s.as_str()),
            None => None,
        }
    }

    /// A text frame arrived at `now`. A valid resource name supersedes the
    /// current run; anything else is ignored.
    pub fn on_text(&mut self, text: &str, now: u64) -> (r: SessionAction)
        ensures
            final(self)@ == text_spec(old(self)@, text@, now),
            is_valid_name(text@) ==> r is Start && r->resource@ == text@
                && r->cancel_previous == supersedes(old(self)@, text@),
            !is_valid_name(text@) ==> r is Ignore,
    {
        proof {
            use_type_invariant(&*self);
        }
        self.last_activity = now;
        if name_is_valid(text) {
            let cancel_previous = self.active.is_some();
            self.active = Some(String::from_str(text));
            SessionAction::Start { resource: String::from_str(text), cancel_previous }
        } else {
            SessionAction::Ignore
        }
    }

    /// A pong or any other frame arrived at `now`.
    pub fn on_activity(&mut self, now: u64)
        ensures
            final(self)@ == (SessionView { active: old(self)@.active, last_activity: now }),
    {
        proof {
            use_type_invariant(&*self);
        }
        self.last_activity = now;
    }

    /// The ping timer fired at `now`: close an idle session, ping a live one.
    pub fn on_tick(&self, now: u64) -> (r: SessionAction)
        ensures
            idle_spec(self@, now) ==> r == (SessionAction::Close { cancel_scan: self@.active is Some }),
            !idle_spec(self@, now) ==> r is Ping,
    {
        if now > self.last_activity && now - self.last_activity > IDLE_TIMEOUT_SECS {
            SessionAction::Close { cancel_scan: self.active.is_some() }
        } else {
            SessionAction::Ping
        }
    }

    /// The client closed, or the connection failed.
    pub fn on_close(&self) -> (r: SessionAction)
        ensures
            r == (SessionAction::Close { cancel_scan: self@.active is Some }),
    {
        SessionAction::Close { cancel_scan: self.active.is_some() }
    }

    /// Whether a discovery from the bus goes to this session's client: it
    /// must be for the resource of the current run.
    pub fn forwards(&self, event: &GiftStatus) -> (r: bool)
        ensures
            r == forwards_spec(self@, event.gift_name@),
            r ==> is_valid_name(event.gift_name@),
    {
        proof {
            use_type_invariant(self);
        }
        match &self.active {
            Some(s) => same_text(s.as_str(), event.gift_name.as_str()),
            None => false,
        }
    }
}

} // verus!
