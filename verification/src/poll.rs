//! The polling loop of the media-player feed, as a state machine.
//!
//! The loop itself lives outside: it owns the connection to the player,
//! performs each action that the machine asks for, and reports back what
//! came of it. The machine only decides what is done next. It keeps no
//! connection beyond the failure of a query: the next poll starts with a
//! fresh attempt to connect.

use vstd::prelude::*;
use crate::player::{status_line, status_line_string, PlayerConfig, PlayerConfigView, PlayerStatus};

verus! {

/// Whether a connection to the player is held.
#[derive(Clone, Copy, Debug, PartialEq, Eq, Structural)]
pub enum Link {
    Disconnected,
    Connected,
}

/// The state of the loop.
#[derive(Clone, Copy, Debug, PartialEq, Eq, Structural)]
pub enum Poller {
    /// No connection; waiting for the next poll.
    Down,
    /// No connection; an attempt to connect is under way.
    Connecting,
    /// Connected; waiting for the next poll.
    Up,
    /// Connected; a status query is under way.
    Querying,
}

/// What the loop reports to the machine.
#[derive(Clone, Copy, Debug, PartialEq, Eq, Structural)]
pub enum Event {
    /// It is time for the next poll.
    Tick,
    /// The attempt to connect succeeded.
    Connected,
    /// The attempt to connect failed.
    ConnectFailed,
    /// The player answered the query.
    Status(PlayerStatus),
    /// The query failed.
    QueryFailed,
}

/// What the machine asks the loop to do.
#[derive(Clone, Debug, PartialEq, Eq)]
pub enum Action {
    /// Try to connect, then report `Connected` or `ConnectFailed`.
    Connect,
    /// Query the status over the connection held, then report `Status` or
    /// `QueryFailed`.
    Query,
    /// Write the line to the output, then sleep until the next poll. Where
    /// the report was of a kind that the player should not send, `unexpected`
    /// is set: that is worth a warning, no more.
    Emit { line: String, unexpected: bool },
    /// The query failed, which is an error to log. Close the connection as
    /// far as that is still possible, let go of it, then sleep until the next
    /// poll.
    Reset,
    /// The attempt to connect failed, which is an error to log. Sleep until
    /// the next poll.
    Wait,
    /// Nothing: the event answered nothing that was asked.
    Ignore,
}

/// An `Action` with its line as a character sequence.
pub enum ActionView {
    Connect,
    Query,
    Emit { line: Seq<char>, unexpected: bool },
    Reset,
    Wait,
    Ignore,
}

impl View for Action {
    type V = ActionView;

    open spec fn view(&self) -> ActionView {
        match self {
            Action::Connect => ActionView::Connect,
            Action::Query => ActionView::Query,
            Action::Emit { line, unexpected } => ActionView::Emit {
                line: line@,
                unexpected: *unexpected,
            },
            Action::Reset => ActionView::Reset,
            Action::Wait => ActionView::Wait,
            Action::Ignore => ActionView::Ignore,
        }
    }
}

/// The state that follows `state` on `event`. An event that answers nothing
/// that was asked leaves the state as it is.
pub open spec fn next_state(state: Poller, event: Event) -> Poller {
    match (state, event) {
        (Poller::Down, Event::Tick) => Poller::Connecting,
        (Poller::Up, Event::Tick) => Poller::Querying,
        (Poller::Connecting, Event::Connected) => Poller::Querying,
        (Poller::Connecting, Event::ConnectFailed) => Poller::Down,
        (Poller::Querying, Event::Status(_)) => Poller::Up,
        (Poller::Querying, Event::QueryFailed) => Poller::Down,
        _ => state,
    }
}

/// What is to be done when `event` arrives in `state`.
pub open spec fn next_action(state: Poller, event: Event, cfg: PlayerConfigView) -> ActionView {
    match (state, event) {
        (Poller::Down, Event::Tick) => ActionView::Connect,
        (Poller::Up, Event::Tick) => ActionView::Query,
        (Poller::Connecting, Event::Connected) => ActionView::Query,
        (Poller::Connecting, Event::ConnectFailed) => ActionView::Wait,
        (Poller::Querying, Event::Status(status)) => ActionView::Emit {
            line: status_line(status, cfg),
            unexpected: !status.kind_of().expected(),
        },
        (Poller::Querying, Event::QueryFailed) => ActionView::Reset,
        _ => ActionView::Ignore,
    }
}

/// Whether `event` is what the loop reports after it has done `action`.
pub open spec fn answers(action: ActionView, event: Event) -> bool {
    match action {
        ActionView::Connect => event is Connected || event is ConnectFailed,
        ActionView::Query => event is Status || event is QueryFailed,
        ActionView::Emit { .. } | ActionView::Reset | ActionView::Wait | ActionView::Ignore => event
            is Tick,
    }
}

/// The state reached from `start` after all of `events`, in order.
pub open spec fn state_after(start: Poller, events: Seq<Event>) -> Poller
    decreases events.len(),
{
    if events.len() == 0 {
        start
    } else {
        next_state(state_after(start, events.drop_last()), events.last())
    }
}

/// What is done on the event number `at` of `events`, counting from zero,
/// when the machine started in `start`.
pub open spec fn action_at(start: Poller, events: Seq<Event>, at: int, cfg: PlayerConfigView)
    -> ActionView
    recommends
        0 <= at < events.len(),
{
    next_action(state_after(start, events.take(at)), events[at], cfg)
}

/// Whether, in the run of `events` from `start`, a connection was asked for
/// on event `asked` and made on the later event `made`.
pub open spec fn connection_made(
    start: Poller,
    events: Seq<Event>,
    cfg: PlayerConfigView,
    asked: int,
    made: int,
) -> bool {
    &&& 0 <= asked < made < events.len()
    &&& action_at(start, events, asked, cfg) is Connect
    &&& state_after(start, events.take(made)) is Connecting
    &&& events[made] is Connected
}

/// Whether `action` is the last of a poll: the loop sleeps after it.
pub open spec fn ends_poll(action: ActionView) -> bool {
    action is Emit || action is Reset || action is Wait
}

impl Poller {
    /// Whether the machine waits for the next poll, nothing being under way.
    pub open spec fn idle(self) -> bool {
        self is Down || self is Up
    }

    /// Whether a connection is held in this state.
    pub open spec fn link_of(self) -> Link {
        match self {
            Poller::Down | Poller::Connecting => Link::Disconnected,
            Poller::Up | Poller::Querying => Link::Connected,
        }
    }

    /// The state in which the loop starts: no connection, no poll under way.
    pub fn new() -> (state: Poller)
        ensures
            state == Poller::Down,
    {
        Poller::Down
    }

    /// Whether a connection is held in this state.
    pub fn link(&self) -> (link: Link)
        ensures
            link == self.link_of(),
    {
        match self {
            Poller::Down => Link::Disconnected,
            Poller::Connecting => Link::Disconnected,
            Poller::Up => Link::Connected,
            Poller::Querying => Link::Connected,
        }
    }

    /// Takes an event and says what to do next.
    pub fn step(self, event: Event, cfg: &PlayerConfig) -> (next: (Poller, Action))
        ensures
            next.0 == next_state(self, event),
            next.1@ == next_action(self, event, cfg@),
    {
        match (self, event) {
            (Poller::Down, Event::Tick) => (Poller::Connecting, Action::Connect),
            (Poller::Up, Event::Tick) => (Poller::Querying, Action::Query),
            (Poller::Connecting, Event::Connected) => (Poller::Querying, Action::Query),
            (Poller::Connecting, Event::ConnectFailed) => (Poller::Down, Action::Wait),
            (Poller::Querying, Event::Status(status)) => (
                Poller::Up,
                Action::Emit {
                    line: status_line_string(status, cfg),
                    unexpected: !status.kind().is_expected(),
                },
            ),
            (Poller::Querying, Event::QueryFailed) => (Poller::Down, Action::Reset),
            _ => (self, Action::Ignore),
        }
    }
}

/// A failed query always ends in the state without a connection, and from
/// there nothing but a poll changes anything: the poll asks to connect.
pub proof fn lemma_failed_query_disconnects(event: Event, cfg: PlayerConfigView)
    ensures
        next_state(Poller::Querying, Event::QueryFailed) == Poller::Down,
        next_action(Poller::Querying, Event::QueryFailed, cfg) == ActionView::Reset,
        next_action(Poller::Down, event, cfg) == if event is Tick {
            ActionView::Connect
        } else {
            ActionView::Ignore
        },
        next_state(Poller::Down, event) == if event is Tick {
            Poller::Connecting
        } else {
            Poller::Down
        },
{
}

/// As long as the loop reports what it was asked for, no event is ignored:
/// after an action that was asked for, exactly its answers are taken up. A
/// loop that starts with a poll is asked for an action.
pub proof fn lemma_answers_are_taken_up(
    state: Poller,
    event: Event,
    answer: Event,
    cfg: PlayerConfigView,
)
    requires
        next_action(state, event, cfg) !is Ignore,
    ensures
        answers(next_action(state, event, cfg), answer) <==> next_action(
            next_state(state, event),
            answer,
            cfg,
        ) !is Ignore,
        next_action(Poller::Down, Event::Tick, cfg) !is Ignore,
{
}

/// A line is emitted only for a status that answers a query: it is the line
/// of that status, and it comes with a warning exactly when the status is of
/// a kind that should not occur.
pub proof fn lemma_emit_needs_status(state: Poller, event: Event, cfg: PlayerConfigView)
    ensures
        next_action(state, event, cfg) is Emit <==> state is Querying && event is Status,
        next_action(state, event, cfg) matches ActionView::Emit { line, unexpected } ==> {
            &&& line == status_line(event->Status_0, cfg)
            &&& unexpected <==> event->Status_0.kind_of() is LengthOnly
        },
{
}

/// Every poll comes to an end, whatever comes of it: the action that a poll
/// starts with is answered either by the end of the poll or by a query, and
/// the query is answered by the end of the poll. At the end of a poll the
/// loop is asked to sleep, alone or after emitting or resetting, and the
/// machine waits for the next poll.
pub proof fn lemma_poll_completes(
    state: Poller,
    first: Event,
    second: Event,
    cfg: PlayerConfigView,
)
    requires
        state.idle(),
        answers(next_action(state, Event::Tick, cfg), first),
    ensures
        ({
            let asked = next_state(state, Event::Tick);
            let then = next_state(asked, first);
            let done = next_action(asked, first, cfg);
            if state is Down && first is Connected {
                &&& done is Query
                &&& answers(done, second) ==> ends_poll(next_action(then, second, cfg))
                    && next_state(then, second).idle()
            } else {
                ends_poll(done) && then.idle()
            }
        }),
{
}

/// The link changes only where a connection is made or a query fails.
pub proof fn lemma_link_changes(state: Poller, event: Event)
    ensures
        next_state(state, event).link_of() != state.link_of() ==> {
            ||| state is Connecting && event is Connected
            ||| state is Querying && event is QueryFailed
        },
{
}

/// While an attempt to connect is under way, it has been asked for.
proof fn lemma_connecting_was_asked(
    start: Poller,
    events: Seq<Event>,
    cfg: PlayerConfigView,
    n: int,
)
    requires
        start.link_of() is Disconnected,
        start !is Connecting,
        0 <= n <= events.len(),
        state_after(start, events.take(n)) is Connecting,
    ensures
        exists|asked: int|
            0 <= asked < n && #[trigger] action_at(start, events, asked, cfg) is Connect,
    decreases n,
{
    if n == 0 {
        assert(events.take(0) =~= Seq::<Event>::empty());
    } else {
        let before = state_after(start, events.take(n - 1));
        assert(events.take(n).drop_last() =~= events.take(n - 1));
        assert(events.take(n).last() == events[n - 1]);
        if before is Connecting {
            lemma_connecting_was_asked(start, events, cfg, n - 1);
        } else {
            assert(action_at(start, events, n - 1, cfg) is Connect);
        }
    }
}

/// While a connection is held, it has been made since the start.
proof fn lemma_link_was_made(start: Poller, events: Seq<Event>, cfg: PlayerConfigView, n: int)
    requires
        start.link_of() is Disconnected,
        start !is Connecting,
        0 <= n <= events.len(),
        state_after(start, events.take(n)).link_of() is Connected,
    ensures
        exists|asked: int, made: int|
            made < n && #[trigger] connection_made(start, events, cfg, asked, made),
    decreases n,
{
    if n == 0 {
        assert(events.take(0) =~= Seq::<Event>::empty());
    } else {
        let before = state_after(start, events.take(n - 1));
        assert(events.take(n).drop_last() =~= events.take(n - 1));
        assert(events.take(n).last() == events[n - 1]);
        if before.link_of() is Connected {
            lemma_link_was_made(start, events, cfg, n - 1);
        } else {
            assert(before is Connecting && events[n - 1] is Connected);
            lemma_connecting_was_asked(start, events, cfg, n - 1);
            let asked = choose|asked: int|
                0 <= asked < n - 1 && #[trigger] action_at(start, events, asked, cfg) is Connect;
            assert(connection_made(start, events, cfg, asked, n - 1));
        }
    }
}

/// A connection that failed is never used again. Once the machine is without
/// a connection, as it is after every failed query, it asks for no query
/// until it has asked to connect and that attempt has succeeded, whatever
/// events arrive and in whatever order.
pub proof fn lemma_query_needs_new_connection(
    start: Poller,
    events: Seq<Event>,
    cfg: PlayerConfigView,
    at: int,
)
    requires
        start is Down,
        0 <= at < events.len(),
        action_at(start, events, at, cfg) is Query,
    ensures
        exists|asked: int, made: int|
            made <= at && #[trigger] connection_made(start, events, cfg, asked, made),
{
    let state = state_after(start, events.take(at));
    if state is Up {
        lemma_link_was_made(start, events, cfg, at);
    } else {
        assert(state is Connecting && events[at] is Connected);
        lemma_connecting_was_asked(start, events, cfg, at);
        let asked = choose|asked: int|
            0 <= asked < at && #[trigger] action_at(start, events, asked, cfg) is Connect;
        assert(connection_made(start, events, cfg, asked, at));
    }
}

} // verus!
