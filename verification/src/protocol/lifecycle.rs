//! The life of the network server: from its listener to the end of the last
//! connection. The server that runs the listener reports what happens as
//! events and does what `step` answers.

use vstd::prelude::*;

verus! {

/// Where the server stands. `open` counts the connections that were
/// accepted and have not ended yet.
#[derive(Clone, Copy, PartialEq, Eq, Structural, Debug)]
pub enum ServerState {
    /// No listener yet.
    Unbound,
    /// The listener is there, the routes are not.
    Bound,
    /// Connections are accepted.
    Serving { open: u64 },
    /// Shutdown was asked for: what is open goes on, nothing new is accepted.
    ShuttingDown { open: u64 },
    /// The server is gone, for good.
    Stopped,
}

/// What the server is told.
#[derive(Clone, Copy, PartialEq, Eq, Structural, Debug)]
pub enum ServerEvent {
    /// The listener was acquired at the configured address.
    BindSucceeded,
    /// The address is in use or not valid.
    BindFailed,
    /// The routes are composed.
    Mounted,
    /// A client wants to connect.
    Offered,
    /// An accepted connection has ended.
    Closed,
    /// The token of the server was cancelled.
    Cancelled,
}

/// What the server is to do.
#[derive(Clone, Copy, PartialEq, Eq, Structural, Debug)]
pub enum ServerAction {
    Nothing,
    /// Compose the routes.
    Mount,
    /// Start to accept connections.
    Listen,
    /// Take the connection that was offered.
    Accept,
    /// Turn away the connection that was offered.
    Refuse,
    /// Give the bind error to the caller. There is no second try.
    Fail,
    /// End the serving task.
    Exit,
}

/// The state after `event`, and what to do about it. An event that means
/// nothing in a state leaves the state as it is.
pub open spec fn next(state: ServerState, event: ServerEvent) -> (ServerState, ServerAction) {
    match (state, event) {
        (ServerState::Unbound, ServerEvent::BindSucceeded) => (
            ServerState::Bound,
            ServerAction::Mount,
        ),
        (ServerState::Unbound, ServerEvent::BindFailed) => (
            ServerState::Stopped,
            ServerAction::Fail,
        ),
        (ServerState::Unbound, ServerEvent::Cancelled) => (
            ServerState::Stopped,
            ServerAction::Exit,
        ),
        (ServerState::Bound, ServerEvent::Mounted) => (
            ServerState::Serving { open: 0 },
            ServerAction::Listen,
        ),
        (ServerState::Bound, ServerEvent::Cancelled) => (
            ServerState::Stopped,
            ServerAction::Exit,
        ),
        (ServerState::Serving { open }, ServerEvent::Offered) => if open < u64::MAX {
            (ServerState::Serving { open: (open + 1) as u64 }, ServerAction::Accept)
        } else {
            (state, ServerAction::Refuse)
        },
        (ServerState::Serving { open }, ServerEvent::Closed) => if open > 0 {
            (ServerState::Serving { open: (open - 1) as u64 }, ServerAction::Nothing)
        } else {
            (state, ServerAction::Nothing)
        },
        (ServerState::Serving { open }, ServerEvent::Cancelled) => if open > 0 {
            (ServerState::ShuttingDown { open }, ServerAction::Nothing)
        } else {
            (ServerState::Stopped, ServerAction::Exit)
        },
        (ServerState::ShuttingDown { open }, ServerEvent::Closed) => if open > 1 {
            (ServerState::ShuttingDown { open: (open - 1) as u64 }, ServerAction::Nothing)
        } else {
            (ServerState::Stopped, ServerAction::Exit)
        },
        (_, ServerEvent::Offered) => (state, ServerAction::Refuse),
        _ => (state, ServerAction::Nothing),
    }
}

impl ServerState {
    /// Whether a connection that is offered now is taken.
    pub open spec fn accepts(self) -> bool {
        self matches ServerState::Serving { open } && open < u64::MAX
    }

    /// The connections that are open.
    pub open spec fn open_connections(self) -> nat {
        match self {
            ServerState::Serving { open } => open as nat,
            ServerState::ShuttingDown { open } => open as nat,
            _ => 0,
        }
    }

    /// Whether shutdown was asked for, or the server is gone already.
    pub open spec fn is_closing(self) -> bool {
        self is ShuttingDown || self is Stopped
    }

    /// A server that waits for its last connections has at least one.
    pub open spec fn well_formed(self) -> bool {
        self matches ServerState::ShuttingDown { open } ==> open > 0
    }

    pub fn new() -> (state: Self)
        ensures
            state == ServerState::Unbound,
    {
        ServerState::Unbound
    }

    /// Whether shutdown was asked for, or the server is gone already.
    pub fn closing(&self) -> (r: bool)
        ensures
            r == self.is_closing(),
    {
        match self {
            ServerState::ShuttingDown { .. } => true,
            ServerState::Stopped => true,
            _ => false,
        }
    }

    /// The number of connections that are open.
    pub fn open(&self) -> (n: u64)
        ensures
            n == self.open_connections(),
    {
        match self {
            ServerState::Serving { open } => *open,
            ServerState::ShuttingDown { open } => *open,
            _ => 0,
        }
    }

    /// Takes one event.
    pub fn step(self, event: ServerEvent) -> (r: (ServerState, ServerAction))
        ensures
            r == next(self, event),
    {
        match (self, event) {
            (ServerState::Unbound, ServerEvent::BindSucceeded) => (
                ServerState::Bound,
                ServerAction::Mount,
            ),
            (ServerState::Unbound, ServerEvent::BindFailed) => (
                ServerState::Stopped,
                ServerAction::Fail,
            ),
            (ServerState::Unbound, ServerEvent::Cancelled) => (
                ServerState::Stopped,
                ServerAction::Exit,
            ),
            (ServerState::Bound, ServerEvent::Mounted) => (
                ServerState::Serving { open: 0 },
                ServerAction::Listen,
            ),
            (ServerState::Bound, ServerEvent::Cancelled) => (
                ServerState::Stopped,
                ServerAction::Exit,
            ),
            (ServerState::Serving { open }, ServerEvent::Offered) => if open < u64::MAX {
                (ServerState::Serving { open: open + 1 }, ServerAction::Accept)
            } else {
                (self, ServerAction::Refuse)
            },
            (ServerState::Serving { open }, ServerEvent::Closed) => if open > 0 {
                (ServerState::Serving { open: open - 1 }, ServerAction::Nothing)
            } else {
                (self, ServerAction::Nothing)
            },
            (ServerState::Serving { open }, ServerEvent::Cancelled) => if open > 0 {
                (ServerState::ShuttingDown { open }, ServerAction::Nothing)
            } else {
                (ServerState::Stopped, ServerAction::Exit)
            },
            (ServerState::ShuttingDown { open }, ServerEvent::Closed) => if open > 1 {
                (ServerState::ShuttingDown { open: open - 1 }, ServerAction::Nothing)
            } else {
                (ServerState::Stopped, ServerAction::Exit)
            },
            (_, ServerEvent::Offered) => (self, ServerAction::Refuse),
            _ => (self, ServerAction::Nothing),
        }
    }
}

/// The state after a run of events.
pub open spec fn run(state: ServerState, events: Seq<ServerEvent>) -> ServerState
    decreases events.len(),
{
    if events.len() == 0 {
        state
    } else {
        next(run(state, events.drop_last()), events.last()).0
    }
}

/// What the server does about event `i` of a run.
pub open spec fn action_at(state: ServerState, events: Seq<ServerEvent>, i: int) -> ServerAction {
    next(run(state, events.take(i)), events[i]).1
}

/// How many connections end during a run.
pub open spec fn closed_in(events: Seq<ServerEvent>) -> nat
    decreases events.len(),
{
    if events.len() == 0 {
        0
    } else {
        closed_in(events.drop_last()) + if events.last() == ServerEvent::Closed {
            1nat
        } else {
            0nat
        }
    }
}

/// A connection is taken exactly where the server is serving.
pub proof fn lemma_accepts_while_serving(state: ServerState)
    ensures
        next(state, ServerEvent::Offered).1 == ServerAction::Accept <==> state.accepts(),
        next(state, ServerEvent::Offered).1 == ServerAction::Accept || next(
            state,
            ServerEvent::Offered,
        ).1 == ServerAction::Refuse,
{
}

/// A failed bind ends the server: whatever comes after it, nothing is
/// mounted, nothing is accepted.
pub proof fn lemma_bind_failure_is_fatal(events: Seq<ServerEvent>)
    ensures
        next(ServerState::Unbound, ServerEvent::BindFailed) == (
            ServerState::Stopped,
            ServerAction::Fail,
        ),
        run(ServerState::Stopped, events) == ServerState::Stopped,
    decreases events.len(),
{
    if events.len() > 0 {
        lemma_bind_failure_is_fatal(events.drop_last());
    }
}

/// To cancel twice is to cancel once.
pub proof fn lemma_cancel_is_idempotent(state: ServerState)
    ensures
        next(next(state, ServerEvent::Cancelled).0, ServerEvent::Cancelled) == (
            next(state, ServerEvent::Cancelled).0,
            ServerAction::Nothing,
        ),
        next(state, ServerEvent::Cancelled).0.is_closing(),
{
}

/// Once shutdown was asked for it stays so.
pub proof fn lemma_closing_is_final(state: ServerState, events: Seq<ServerEvent>)
    requires
        state.is_closing(),
    ensures
        run(state, events).is_closing(),
    decreases events.len(),
{
    if events.len() > 0 {
        lemma_closing_is_final(state, events.drop_last());
    }
}

/// After the token was cancelled no connection is accepted, whatever happens.
pub proof fn lemma_no_accept_after_cancel(state: ServerState, later: Seq<ServerEvent>, i: int)
    requires
        0 <= i < later.len(),
    ensures
        action_at(next(state, ServerEvent::Cancelled).0, later, i) != ServerAction::Accept,
{
    lemma_cancel_is_idempotent(state);
    lemma_closing_is_final(next(state, ServerEvent::Cancelled).0, later.take(i));
}

/// To cancel the token ends no connection: what was open is open.
pub proof fn lemma_cancel_keeps_connections(state: ServerState)
    ensures
        next(state, ServerEvent::Cancelled).0.open_connections() == state.open_connections(),
{
}

/// No event leaves the server waiting for connections that are not there.
pub proof fn lemma_step_keeps_well_formed(state: ServerState, event: ServerEvent)
    requires
        state.well_formed(),
    ensures
        next(state, event).0.well_formed(),
{
}

/// A server that shuts down with `open` connections goes on until each of
/// them has ended, and stops when the last one has: it waits for them, and
/// for nothing else.
pub proof fn lemma_drains_open_connections(open: u64, events: Seq<ServerEvent>)
    requires
        open > 0,
    ensures
        closed_in(events) < open ==> run(ServerState::ShuttingDown { open }, events) == (
            ServerState::ShuttingDown { open: (open - closed_in(events)) as u64 }
        ),
        closed_in(events) >= open ==> run(ServerState::ShuttingDown { open }, events)
            == ServerState::Stopped,
    decreases events.len(),
{
    if events.len() > 0 {
        lemma_drains_open_connections(open, events.drop_last());
    }
}

} // verus!
