//! The per-client session: a state machine from handshake to terminal
//! result, and the shaping of view records for the wire.
//!
//! The connection handling itself (sockets, JSON decoding) lives outside
//! the library; it feeds each decoded event into `session_step` and
//! performs the action the machine returns. A session opens, learns the
//! player's name, waits for the match to fill, then answers each action
//! with an updated view until its agent wins, is killed, or the stream
//! breaks.

use vstd::prelude::*;

use crate::player::ViewHit;

verus! {

/// Where a session stands.
#[derive(Clone, Copy, Debug, PartialEq, Eq, Structural)]
pub enum SessionState {
    /// Connection accepted, no name yet.
    Opened,
    /// Name received; waiting for the match to fill.
    Waiting,
    /// In the match: actions are applied and views returned.
    Playing,
    /// Terminal: the connection is to be closed.
    Ended,
}

/// What a session observes.
#[derive(Clone, Copy, Debug, PartialEq, Eq, Structural)]
pub enum SessionEvent {
    /// The first message, carrying the player's name, decoded.
    NameReceived,
    /// The required number of participants was reached.
    MatchReady,
    /// A well-formed action arrived while the agent is in play.
    ActionReceived,
    /// An action arrived but the agent's status is Win.
    TerminalWin,
    /// An action arrived but the agent's status is KilledBy.
    TerminalKilled,
    /// The stream carried something undecodable.
    DecodeFailed,
    /// The peer went away.
    Disconnected,
}

/// What the surrounding connection handler must do next.
#[derive(Clone, Copy, Debug, PartialEq, Eq, Structural)]
pub enum SessionCommand {
    /// Count the participant and block until the match fills.
    AwaitPlayers,
    /// Take a free point, create and register the agent, send the first
    /// view.
    SpawnAndSendView,
    /// Apply the action, advance the world, record history, send the
    /// updated view.
    ApplyAndRespond,
    /// Send the win result, then close.
    SendWin,
    /// Send the killed-by result, then close.
    SendKilled,
    /// Close the connection.
    Close,
    /// Nothing: the event does not belong to this state.
    Ignore,
}

/// The transition table of the session lifecycle. A decode failure or a
/// lost peer ends the session from any state; `Ended` is terminal.
pub open spec fn session_step_spec(s: SessionState, e: SessionEvent) -> (
    SessionState,
    SessionCommand,
) {
    match (s, e) {
        (SessionState::Ended, _) => (SessionState::Ended, SessionCommand::Close),
        (_, SessionEvent::DecodeFailed) => (SessionState::Ended, SessionCommand::Close),
        (_, SessionEvent::Disconnected) => (SessionState::Ended, SessionCommand::Close),
        (SessionState::Opened, SessionEvent::NameReceived) => (
            SessionState::Waiting,
            SessionCommand::AwaitPlayers,
        ),
        (SessionState::Waiting, SessionEvent::MatchReady) => (
            SessionState::Playing,
            SessionCommand::SpawnAndSendView,
        ),
        (SessionState::Playing, SessionEvent::ActionReceived) => (
            SessionState::Playing,
            SessionCommand::ApplyAndRespond,
        ),
        (SessionState::Playing, SessionEvent::TerminalWin) => (
            SessionState::Ended,
            SessionCommand::SendWin,
        ),
        (SessionState::Playing, SessionEvent::TerminalKilled) => (
            SessionState::Ended,
            SessionCommand::SendKilled,
        ),
        (_, _) => (s, SessionCommand::Ignore),
    }
}

/// One step of the session lifecycle.
pub fn session_step(s: SessionState, e: SessionEvent) -> (r: (SessionState, SessionCommand))
    ensures
        r == session_step_spec(s, e),
{
    match (s, e) {
        (SessionState::Ended, _) => (SessionState::Ended, SessionCommand::Close),
        (_, SessionEvent::DecodeFailed) => (SessionState::Ended, SessionCommand::Close),
        (_, SessionEvent::Disconnected) => (SessionState::Ended, SessionCommand::Close),
        (SessionState::Opened, SessionEvent::NameReceived) => (
            SessionState::Waiting,
            SessionCommand::AwaitPlayers,
        ),
        (SessionState::Waiting, SessionEvent::MatchReady) => (
            SessionState::Playing,
            SessionCommand::SpawnAndSendView,
        ),
        (SessionState::Playing, SessionEvent::ActionReceived) => (
            SessionState::Playing,
            SessionCommand::ApplyAndRespond,
        ),
        (SessionState::Playing, SessionEvent::TerminalWin) => (
            SessionState::Ended,
            SessionCommand::SendWin,
        ),
        (SessionState::Playing, SessionEvent::TerminalKilled) => (
            SessionState::Ended,
            SessionCommand::SendKilled,
        ),
        (_, _) => (s, SessionCommand::Ignore),
    }
}

/// A session that has ended stays ended, whatever else arrives.
pub proof fn lemma_session_ended_is_terminal(e: SessionEvent)
    ensures
        session_step_spec(SessionState::Ended, e).0 == SessionState::Ended,
{
}

/// A session only ever moves forward through the lifecycle: no transition
/// returns it to an earlier stage.
pub proof fn lemma_session_no_going_back(s: SessionState, e: SessionEvent)
    ensures
        session_step_spec(s, e).0 == s || (match (s, session_step_spec(s, e).0) {
            (SessionState::Opened, SessionState::Waiting) => true,
            (SessionState::Opened, SessionState::Ended) => true,
            (SessionState::Waiting, SessionState::Playing) => true,
            (SessionState::Waiting, SessionState::Ended) => true,
            (SessionState::Playing, SessionState::Ended) => true,
            _ => false,
        }),
{
}

/// The wire label of a view record.
pub fn view_hit_label(v: &ViewHit) -> (s: &'static str)
    ensures
        match v {
            ViewHit::Barrier(_) => s@ == "BARRIER"@,
            ViewHit::Border(_) => s@ == "BORDER"@,
            ViewHit::Enemy(_) => s@ == "ENEMY"@,
        },
{
    match v {
        ViewHit::Barrier(_) => "BARRIER",
        ViewHit::Border(_) => "BORDER",
        ViewHit::Enemy(_) => "ENEMY",
    }
}

/// The distance carried by a view record.
pub fn view_hit_distance(v: &ViewHit) -> (d: i64)
    ensures
        match v {
            ViewHit::Barrier(x) => d == x,
            ViewHit::Border(x) => d == x,
            ViewHit::Enemy(x) => d == x,
        },
{
    match v {
        ViewHit::Barrier(x) => *x,
        ViewHit::Border(x) => *x,
        ViewHit::Enemy(x) => *x,
    }
}

/// The view records shaped for the wire: label and distance per ray, in
/// fan order.
pub fn make_response_from_view(view: &Vec<ViewHit>) -> (r: Vec<(&'static str, i64)>)
    ensures
        r@.len() == view@.len(),
        forall|k: int|
            0 <= k < view@.len() ==> (#[trigger] r@[k]) == (
                match view@[k] {
                    ViewHit::Barrier(d) => ("BARRIER", d),
                    ViewHit::Border(d) => ("BORDER", d),
                    ViewHit::Enemy(d) => ("ENEMY", d),
                }),
{
    let mut r: Vec<(&'static str, i64)> = Vec::new();
    let mut i: usize = 0;
    while i < view.len()
        invariant
            0 <= i <= view@.len(),
            r@.len() == i,
            forall|k: int|
                0 <= k < i ==> (#[trigger] r@[k]) == (
                    match view@[k] {
                        ViewHit::Barrier(d) => ("BARRIER", d),
                        ViewHit::Border(d) => ("BORDER", d),
                        ViewHit::Enemy(d) => ("ENEMY", d),
                    }),
        decreases view@.len() - i,
    {
        let v = view[i];
        let entry: (&'static str, i64) = match v {
            ViewHit::Barrier(d) => ("BARRIER", d),
            ViewHit::Border(d) => ("BORDER", d),
            ViewHit::Enemy(d) => ("ENEMY", d),
        };
        r.push(entry);
        i = i + 1;
    }
    r
}

} // verus!
