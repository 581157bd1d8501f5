//! The life of a feed connection: connect, subscribe, listen, renew, reconnect.
//!
//! [`Session::next`] makes every decision; the caller performs the action it
//! returns and reports what came of it.

use vstd::prelude::*;
use crate::feeds::{backoff_nanos, FeedConfig};
use crate::span::Span;

verus! {

/// What came of the last action.
#[derive(Debug, Clone, Copy, PartialEq, Eq, Structural)]
pub enum FeedEvent {
    /// The feed has just been attached.
    Started,
    /// The connection stands.
    Connected,
    /// The connection was refused.
    ConnectFailed,
    /// The subscribe message went out.
    Subscribed,
    /// The subscribe message could not be sent.
    SubscribeFailed,
    /// A message was decoded and all of it handed downstream.
    Delivered,
    /// The receiving end downstream is gone.
    ReceiverGone,
    /// The server asked for a reconnect, which is to follow at once.
    ReconnectRequested,
    /// A message held nothing to hand on, or an answer went out.
    Idle,
    /// The server sent a ping.
    PingReceived,
    /// It is time for a ping of our own.
    PingDue,
    /// The token that the subscription was made with has grown old.
    RenewalDue,
    /// Our ping could not be sent.
    PingFailed,
    /// The server closed the connection, or it broke.
    Lost,
    /// The wait before the next attempt is over.
    Waited,
}

/// What to do next.
#[derive(Debug, Clone, Copy, PartialEq, Eq, Structural)]
pub enum FeedAction {
    Connect,
    Subscribe,
    Listen,
    SendPong,
    SendPing,
    Wait(Span),
    /// The engine is gone: end without an error.
    Finish,
    /// Too many attempts failed in a row: end with an error.
    GiveUp,
}

/// Does the event end the current connection (or the attempt at one)?
pub open spec fn breaks_connection(event: FeedEvent) -> bool {
    event == FeedEvent::ConnectFailed || event == FeedEvent::Lost || event
        == FeedEvent::PingFailed
}

/// The failed attempts in a row after an event.
pub open spec fn attempts_after(attempt: nat, event: FeedEvent) -> nat {
    if event == FeedEvent::Connected {
        0
    } else if breaks_connection(event) {
        attempt + 1
    } else {
        attempt
    }
}

/// Is the feed out of attempts?
pub open spec fn exhausted(max_attempts: nat, attempt: nat) -> bool {
    max_attempts > 0 && attempt > max_attempts
}

/// A feed connection and its failed attempts in a row.
#[derive(Debug, Clone, Copy)]
pub struct Session {
    /// Does the exchange expect a subscribe message after the connect?
    pub subscribes: bool,
    pub attempt: u32,
}

/// What a session decides on an event, and what it counts.
///
/// A subscription is made on a new connection, and made again on the same connection
/// when its token has grown old.
pub open spec fn decided(
    config: FeedConfig,
    before: Session,
    event: FeedEvent,
    after: Session,
    action: FeedAction,
) -> bool {
    &&& after.subscribes == before.subscribes
    &&& after.attempt == attempts_after(before.attempt as nat, event)
    &&& match event {
        FeedEvent::Started
        | FeedEvent::SubscribeFailed
        | FeedEvent::ReconnectRequested
        | FeedEvent::Waited => action == FeedAction::Connect,
        FeedEvent::Connected | FeedEvent::RenewalDue => action == (if before.subscribes {
            FeedAction::Subscribe
        } else {
            FeedAction::Listen
        }),
        FeedEvent::Subscribed | FeedEvent::Delivered | FeedEvent::Idle => action
            == FeedAction::Listen,
        FeedEvent::PingReceived => action == FeedAction::SendPong,
        FeedEvent::PingDue => action == FeedAction::SendPing,
        FeedEvent::ReceiverGone => action == FeedAction::Finish,
        FeedEvent::ConnectFailed | FeedEvent::Lost | FeedEvent::PingFailed => if exhausted(
            config.max_reconnect_attempts as nat,
            after.attempt as nat,
        ) {
            action == FeedAction::GiveUp
        } else {
            action matches FeedAction::Wait(span) && span.valid() && span.total() == backoff_nanos(
                config.reconnect_initial.total(),
                config.reconnect_cap.total(),
                after.attempt as nat,
            )
        },
    }
}

impl Session {
    /// A session that has not connected yet.
    pub fn new(subscribes: bool) -> (r: Self)
        ensures
            r.subscribes == subscribes,
            r.attempt == 0,
    {
        Session { subscribes, attempt: 0 }
    }

    /// Decides what follows an event.
    pub fn next(&mut self, config: &FeedConfig, event: FeedEvent) -> (action: FeedAction)
        requires
            config.valid(),
            old(self).attempt < u32::MAX,
        ensures
            decided(*config, *old(self), event, *final(self), action),
    {
        match event {
            FeedEvent::Started
            | FeedEvent::SubscribeFailed
            | FeedEvent::ReconnectRequested
            | FeedEvent::Waited => FeedAction::Connect,
            FeedEvent::Connected => {
                self.attempt = 0;
                if self.subscribes {
                    FeedAction::Subscribe
                } else {
                    FeedAction::Listen
                }
            },
            FeedEvent::Subscribed | FeedEvent::Delivered | FeedEvent::Idle => FeedAction::Listen,
            FeedEvent::RenewalDue => if self.subscribes {
                FeedAction::Subscribe
            } else {
                FeedAction::Listen
            },
            FeedEvent::PingReceived => FeedAction::SendPong,
            FeedEvent::PingDue => FeedAction::SendPing,
            FeedEvent::ReceiverGone => FeedAction::Finish,
            FeedEvent::ConnectFailed
            | FeedEvent::Lost
            | FeedEvent::PingFailed => {
                self.attempt += 1;
                if config.max_reconnect_attempts > 0 && self.attempt
                    > config.max_reconnect_attempts {
                    FeedAction::GiveUp
                } else {
                    FeedAction::Wait(config.backoff(self.attempt))
                }
            },
        }
    }
}

/// The failed attempts in a row after a run of events.
pub open spec fn attempts_after_all(attempt: nat, events: Seq<FeedEvent>) -> nat
    decreases events.len(),
{
    if events.len() == 0 {
        attempt
    } else {
        attempts_after(attempts_after_all(attempt, events.drop_last()), events.last())
    }
}

/// Attempts count from the last successful connect: whatever came before, after a
/// connect and a run of failures the count is the length of that run.
pub proof fn attempts_count_failures_since_connect(
    attempt: nat,
    before: Seq<FeedEvent>,
    failures: Seq<FeedEvent>,
)
    requires
        forall|i: int| 0 <= i < failures.len() ==> breaks_connection(#[trigger] failures[i]),
    ensures
        attempts_after_all(attempt, before.push(FeedEvent::Connected) + failures)
            == failures.len(),
    decreases failures.len(),
{
    let all = before.push(FeedEvent::Connected) + failures;
    if failures.len() == 0 {
        assert(all =~= before.push(FeedEvent::Connected));
    } else {
        assert(all.drop_last() =~= before.push(FeedEvent::Connected) + failures.drop_last());
        assert(all.last() == failures.last());
        assert(breaks_connection(failures[failures.len() - 1]));
        attempts_count_failures_since_connect(attempt, before, failures.drop_last());
    }
}

/// A run in which nothing but failures happens: each attempt fails, and after each wait
/// the next one is made.
pub open spec fn keeps_failing(
    config: FeedConfig,
    sessions: Seq<Session>,
    events: Seq<FeedEvent>,
    actions: Seq<FeedAction>,
) -> bool {
    &&& sessions.len() == events.len() + 1
    &&& actions.len() == events.len()
    &&& forall|i: int|
        0 <= i < events.len() ==> decided(
            config,
            sessions[i],
            #[trigger] events[i],
            sessions[i + 1],
            actions[i],
        )
    &&& forall|i: int|
        0 <= i < events.len() ==> if i % 2 == 0 {
            breaks_connection(#[trigger] events[i])
        } else {
            events[i] == FeedEvent::Waited
        }
}

/// The wait before the next attempt, after so many failures in a row.
pub open spec fn waits(config: FeedConfig, action: FeedAction, failures: nat) -> bool {
    action matches FeedAction::Wait(span) && span.valid() && span.total() == backoff_nanos(
        config.reconnect_initial.total(),
        config.reconnect_cap.total(),
        failures,
    )
}

proof fn failures_are_counted(
    config: FeedConfig,
    sessions: Seq<Session>,
    events: Seq<FeedEvent>,
    actions: Seq<FeedAction>,
    n: int,
)
    requires
        keeps_failing(config, sessions, events, actions),
        sessions[0].attempt == 0,
        0 <= n < sessions.len(),
    ensures
        sessions[n].attempt == (n + 1) / 2,
    decreases n,
{
    if n > 0 {
        failures_are_counted(config, sessions, events, actions, n - 1);
        assert(decided(config, sessions[n - 1], events[n - 1], sessions[n], actions[n - 1]));
        assert(if (n - 1) % 2 == 0 {
            breaks_connection(events[n - 1])
        } else {
            events[n - 1] == FeedEvent::Waited
        });
    }
}

/// With a limit of `m` a feed that keeps failing makes `m + 1` attempts: after the first
/// `m` failures it waits for as long as the backoff says, from the first to the `m`-th,
/// and connects again; after the next one it gives up.
pub proof fn limited_feed_gives_up_after_the_limit(
    config: FeedConfig,
    sessions: Seq<Session>,
    events: Seq<FeedEvent>,
    actions: Seq<FeedAction>,
    failure: nat,
)
    requires
        keeps_failing(config, sessions, events, actions),
        sessions[0].attempt == 0,
        config.max_reconnect_attempts > 0,
        1 <= failure <= config.max_reconnect_attempts + 1,
        2 * (failure - 1) < events.len(),
    ensures
        failure <= config.max_reconnect_attempts ==> {
            &&& waits(config, actions[2 * (failure - 1)], failure)
            &&& 2 * failure - 1 < events.len() ==> actions[2 * failure - 1] == FeedAction::Connect
        },
        failure > config.max_reconnect_attempts ==> actions[2 * (failure - 1)]
            == FeedAction::GiveUp,
{
    failure_is_answered(config, sessions, events, actions, failure);
}

/// Without a limit a feed that keeps failing never gives up: after every failure it waits
/// for as long as the backoff says, and connects again.
pub proof fn unlimited_feed_never_gives_up(
    config: FeedConfig,
    sessions: Seq<Session>,
    events: Seq<FeedEvent>,
    actions: Seq<FeedAction>,
    failure: nat,
)
    requires
        keeps_failing(config, sessions, events, actions),
        sessions[0].attempt == 0,
        config.max_reconnect_attempts == 0,
        1 <= failure,
        2 * (failure - 1) < events.len(),
    ensures
        waits(config, actions[2 * (failure - 1)], failure),
        2 * failure - 1 < events.len() ==> actions[2 * failure - 1] == FeedAction::Connect,
{
    failure_is_answered(config, sessions, events, actions, failure);
}

proof fn failure_is_answered(
    config: FeedConfig,
    sessions: Seq<Session>,
    events: Seq<FeedEvent>,
    actions: Seq<FeedAction>,
    failure: nat,
)
    requires
        keeps_failing(config, sessions, events, actions),
        sessions[0].attempt == 0,
        1 <= failure,
        2 * (failure - 1) < events.len(),
    ensures
        if exhausted(config.max_reconnect_attempts as nat, failure) {
            actions[2 * (failure - 1)] == FeedAction::GiveUp
        } else {
            waits(config, actions[2 * (failure - 1)], failure)
        },
        2 * failure - 1 < events.len() ==> actions[2 * failure - 1] == FeedAction::Connect,
{
    let i = 2 * (failure - 1);
    failures_are_counted(config, sessions, events, actions, i);
    assert(decided(config, sessions[i], events[i], sessions[i + 1], actions[i]));
    assert(i % 2 == 0);
    assert(breaks_connection(events[i]));
    if i + 1 < events.len() {
        assert(decided(config, sessions[i + 1], events[i + 1], sessions[i + 2], actions[i + 1]));
        assert((i + 1) % 2 == 1);
        assert(events[i + 1] == FeedEvent::Waited);
    }
}

} // verus!
