//! Session events of CLI coding agents running in a terminal: which agents are
//! supported, how Codex's OSC 9 notifications become events, and which events the
//! default listener forwards.

use vstd::prelude::*;

use crate::text::{chars_of, string_from_chars, trim, trim_bounds};

verus! {

/// A CLI coding agent.
#[derive(Clone, Copy, Debug, PartialEq, Eq, Structural)]
pub enum CLIAgent {
    Codex,
    Auggie,
    Pi,
}

/// The kind of a session event.
#[derive(Clone, Copy, Debug, PartialEq, Eq, Structural)]
pub enum CLIAgentEventType {
    SessionStart,
    Stop,
}

/// What an event carries besides its kind.
#[derive(Clone, Debug, PartialEq, Eq)]
pub struct CLIAgentEventPayload {
    pub query: Option<String>,
}

impl Default for CLIAgentEventPayload {
    fn default() -> (r: CLIAgentEventPayload)
        ensures
            r.query is None,
    {
        CLIAgentEventPayload { query: None }
    }
}

/// A session event of a CLI agent.
#[derive(Clone, Debug, PartialEq, Eq)]
pub struct CLIAgentEvent {
    pub v: u32,
    pub agent: CLIAgent,
    pub event: CLIAgentEventType,
    pub session_id: Option<String>,
    pub cwd: Option<String>,
    pub project: Option<String>,
    pub payload: CLIAgentEventPayload,
}

/// Whether Warp listens to the sessions of `agent`.
pub open spec fn agent_supported(agent: CLIAgent) -> bool {
    true
}

/// Whether `agent` reports through the default listener, which gives rich status.
pub open spec fn uses_default_listener(agent: CLIAgent) -> bool {
    agent != CLIAgent::Codex
}

/// Whether Warp listens to the sessions of `agent`.
pub fn is_agent_supported(agent: &CLIAgent) -> (r: bool)
    ensures
        r == agent_supported(*agent),
{
    true
}

/// Whether `agent` reports rich status (it goes through the default listener).
pub fn agent_supports_rich_status(agent: &CLIAgent) -> (r: bool)
    ensures
        r == uses_default_listener(*agent),
{
    match agent {
        CLIAgent::Codex => false,
        CLIAgent::Auggie | CLIAgent::Pi => true,
    }
}

/// Whether `e` is the stop event of Codex for the notification text `text`: its turn is
/// over, with the trimmed text as the query.
pub open spec fn is_codex_stop(e: CLIAgentEvent, text: Seq<char>) -> bool {
    &&& e.v == 1
    &&& e.agent == CLIAgent::Codex
    &&& e.event == CLIAgentEventType::Stop
    &&& e.session_id is None
    &&& e.cwd is None
    &&& e.project is None
    &&& e.payload.query matches Some(q) && q@ == trim(text)
}

/// Listens to Codex, which notifies through untitled OSC 9 messages.
pub struct CodexSessionHandler;

impl CodexSessionHandler {
    /// The stop event that an OSC 9 text stands for: Codex notifies when its turn is
    /// over, with the (trimmed) message as the query; blank text is no event.
    pub fn parse_osc9_text(text: &str) -> (r: Option<CLIAgentEvent>)
        ensures
            match r {
                Some(e) => trim(text@).len() > 0 && is_codex_stop(e, text@),
                None => trim(text@).len() == 0,
            },
    {
        let chars = chars_of(text);
        let (lo, hi) = trim_bounds(&chars);
        if lo == hi {
            return None;
        }
        let query = string_from_chars(&chars, lo, hi);
        Some(
            CLIAgentEvent {
                v: 1,
                agent: CLIAgent::Codex,
                event: CLIAgentEventType::Stop,
                session_id: None,
                cwd: None,
                project: None,
                payload: CLIAgentEventPayload { query: Some(query) },
            },
        )
    }

    /// The event of a notification: titled notifications are not Codex's.
    pub fn try_parse(&self, title: Option<&str>, body: &str) -> (r: Option<CLIAgentEvent>)
        ensures
            title is Some ==> r is None,
            title is None ==> (r is Some <==> trim(body@).len() > 0),
            r matches Some(e) ==> is_codex_stop(e, body@),
    {
        if title.is_some() {
            return None;
        }
        Self::parse_osc9_text(body)
    }
}

/// The listener of agents that report session events themselves.
pub struct DefaultSessionListener;

impl DefaultSessionListener {
    /// Forwards an event, except the start of a session, which carries no status.
    pub fn handle_event(&mut self, event: CLIAgentEvent) -> (r: Option<CLIAgentEvent>)
        ensures
            event.event == CLIAgentEventType::SessionStart ==> r is None,
            event.event != CLIAgentEventType::SessionStart ==> r == Some(event),
    {
        match event.event {
            CLIAgentEventType::SessionStart => None,
            _ => Some(event),
        }
    }
}

} // verus!
