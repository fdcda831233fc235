//! The byzantine test client's main loop, as decisions: pull the genesis block
//! until the full node answers, send rounds of broadcasts (one round per trust
//! interval), then wait out a soft ban, and start again.  Running the calls and
//! the sleeps is the caller's part.
use vstd::prelude::*;

verus! {

/// Rounds of broadcasts between two soft-ban waits.
pub const BROADCAST_ROUNDS: u8 = 4;
/// Broadcasts in a round.
pub const BROADCASTS_PER_ROUND: u8 = 10;
/// Seconds between two broadcasts.
pub const BROADCAST_PAUSE_SECS: u64 = 2;
/// Trust interval, in seconds, when none is configured.
pub const DEFAULT_TRUST_INTERVAL: u64 = 60;
/// Soft-ban duration, in seconds, when none is configured.
pub const DEFAULT_SOFT_BAN_DURATION: u64 = 600;

#[derive(Debug, Clone, Copy, PartialEq, Eq, Structural)]
pub enum ClientState {
    /// Pulling the genesis block from the full node.
    Connecting,
    /// About to send broadcast `sent` (from 0) of round `round` (from 0).
    Sending { round: u8, sent: u8 },
    /// Pausing after broadcast `sent` of round `round`.
    Pausing { round: u8, sent: u8 },
    /// Waiting for the next trust interval after round `round`.
    Resting { round: u8 },
    /// Waiting out the soft ban.
    Banned,
}

/// How a broadcast went.
#[derive(Debug, Clone, Copy, PartialEq, Eq, Structural)]
pub enum BroadcastOutcome {
    Sent,
    /// It failed, but the full node is still connected.
    Unexpected,
    NotConnected,
}

/// What happened since the last action.
#[derive(Debug, Clone, Copy, PartialEq, Eq, Structural)]
pub enum ClientEvent {
    /// The genesis block was pulled (`true`) or the pull failed.
    GenesisPulled(bool),
    Broadcasted(BroadcastOutcome),
    Slept,
}

/// What the client does next.
#[derive(Debug, Clone, Copy, PartialEq, Eq, Structural)]
pub enum ClientAction {
    PullGenesis,
    Broadcast,
    /// Sleep this many seconds.
    Sleep(u64),
}

/// The trust interval in use.
pub open spec fn trust_interval_of(trust_interval: Option<u64>) -> u64 {
    match trust_interval {
        Some(t) => t,
        None => DEFAULT_TRUST_INTERVAL,
    }
}

/// The soft-ban duration in use.
pub open spec fn soft_ban_of(soft_ban: Option<u64>) -> u64 {
    match soft_ban {
        Some(d) => d,
        None => DEFAULT_SOFT_BAN_DURATION,
    }
}

/// Seconds to rest after a round: until 19 seconds before the next trust interval.
pub open spec fn rest_secs(trust_interval: Option<u64>) -> int {
    trust_interval_of(trust_interval) - 20 + 1
}

/// Seconds to wait out a soft ban: twice its duration.
pub open spec fn ban_secs(soft_ban: Option<u64>) -> int {
    soft_ban_of(soft_ban) * 2
}

/// The states the loop can be in: rounds and broadcasts within their counts.
pub open spec fn valid_state(state: ClientState) -> bool {
    match state {
        ClientState::Sending { round, sent } => round < BROADCAST_ROUNDS && sent < BROADCASTS_PER_ROUND,
        ClientState::Pausing { round, sent } => round < BROADCAST_ROUNDS && sent < BROADCASTS_PER_ROUND,
        ClientState::Resting { round } => round < BROADCAST_ROUNDS,
        _ => true,
    }
}

/// Whether `event` is what the action of `state` reports.
pub open spec fn expected(state: ClientState, event: ClientEvent) -> bool {
    match state {
        ClientState::Connecting => event is GenesisPulled,
        ClientState::Sending { .. } => event is Broadcasted,
        _ => event is Slept,
    }
}

/// Whether the step rests after the last broadcast of a round.
pub open spec fn ends_round(state: ClientState) -> bool {
    state matches ClientState::Pausing { sent, .. } && sent + 1 >= BROADCASTS_PER_ROUND
}

/// Whether the step starts the soft-ban wait.
pub open spec fn starts_ban(state: ClientState, event: ClientEvent) -> bool {
    ||| (state is Sending && event == ClientEvent::Broadcasted(BroadcastOutcome::NotConnected))
    ||| (state matches ClientState::Resting { round } && round + 1 >= BROADCAST_ROUNDS)
}

/// The next state and action of the loop.
pub open spec fn next_spec(
    state: ClientState,
    event: ClientEvent,
    trust_interval: Option<u64>,
    soft_ban: Option<u64>,
) -> (ClientState, ClientAction) {
    match (state, event) {
        (ClientState::Connecting, ClientEvent::GenesisPulled(pulled)) => if pulled {
            (ClientState::Sending { round: 0, sent: 0 }, ClientAction::Broadcast)
        } else {
            (ClientState::Connecting, ClientAction::PullGenesis)
        },
        (ClientState::Sending { round, sent }, ClientEvent::Broadcasted(outcome)) => if outcome
            == BroadcastOutcome::NotConnected {
            (ClientState::Banned, ClientAction::Sleep(ban_secs(soft_ban) as u64))
        } else {
            (ClientState::Pausing { round, sent }, ClientAction::Sleep(BROADCAST_PAUSE_SECS))
        },
        (ClientState::Pausing { round, sent }, ClientEvent::Slept) => if sent + 1 < BROADCASTS_PER_ROUND {
            (ClientState::Sending { round, sent: (sent + 1) as u8 }, ClientAction::Broadcast)
        } else {
            (ClientState::Resting { round }, ClientAction::Sleep(rest_secs(trust_interval) as u64))
        },
        (ClientState::Resting { round }, ClientEvent::Slept) => if round + 1 < BROADCAST_ROUNDS {
            (ClientState::Sending { round: (round + 1) as u8, sent: 0 }, ClientAction::Broadcast)
        } else {
            (ClientState::Banned, ClientAction::Sleep(ban_secs(soft_ban) as u64))
        },
        (ClientState::Banned, ClientEvent::Slept) => (ClientState::Connecting, ClientAction::PullGenesis),
        _ => (state, ClientAction::PullGenesis),
    }
}

/// The loop's first state and action: pull the genesis block.
pub fn start() -> (r: (ClientState, ClientAction))
    ensures
        r == (ClientState::Connecting, ClientAction::PullGenesis),
{
    (ClientState::Connecting, ClientAction::PullGenesis)
}

/// One step of the loop, from `state` and the `event` that its action produced.
/// The rest after a round needs a trust interval of at least 20 seconds, and the
/// ban wait twice the soft-ban duration within a `u64`.
pub fn next_step(
    state: ClientState,
    event: ClientEvent,
    trust_interval: Option<u64>,
    soft_ban: Option<u64>,
) -> (r: (ClientState, ClientAction))
    requires
        valid_state(state),
        expected(state, event),
        ends_round(state) ==> trust_interval_of(trust_interval) >= 20,
        starts_ban(state, event) ==> ban_secs(soft_ban) <= u64::MAX,
    ensures
        r == next_spec(state, event, trust_interval, soft_ban),
        valid_state(r.0),
{
    let trust = match trust_interval {
        Some(t) => t,
        None => DEFAULT_TRUST_INTERVAL,
    };
    let ban = match soft_ban {
        Some(d) => d,
        None => DEFAULT_SOFT_BAN_DURATION,
    };
    match state {
        ClientState::Connecting => match event {
            ClientEvent::GenesisPulled(true) => (ClientState::Sending { round: 0, sent: 0 }, ClientAction::Broadcast),
            _ => (ClientState::Connecting, ClientAction::PullGenesis),
        },
        ClientState::Sending { round, sent } => {
            if event == ClientEvent::Broadcasted(BroadcastOutcome::NotConnected) {
                (ClientState::Banned, ClientAction::Sleep(ban * 2))
            } else {
                (ClientState::Pausing { round, sent }, ClientAction::Sleep(BROADCAST_PAUSE_SECS))
            }
        },
        ClientState::Pausing { round, sent } => {
            if sent + 1 < BROADCASTS_PER_ROUND {
                (ClientState::Sending { round, sent: sent + 1 }, ClientAction::Broadcast)
            } else {
                (ClientState::Resting { round }, ClientAction::Sleep(trust - 20 + 1))
            }
        },
        ClientState::Resting { round } => {
            if round + 1 < BROADCAST_ROUNDS {
                (ClientState::Sending { round: round + 1, sent: 0 }, ClientAction::Broadcast)
            } else {
                (ClientState::Banned, ClientAction::Sleep(ban * 2))
            }
        },
        ClientState::Banned => (ClientState::Connecting, ClientAction::PullGenesis),
    }
}

/// The waits use the configured durations: entering the ban wait (after the last
/// round, or when the full node is lost) sleeps twice the configured soft-ban
/// duration (600 s when none is configured); resting after a round sleeps the
/// configured trust interval (60 s when none) less 19 s; a pause between
/// broadcasts is 2 s; after the ban wait the client pulls the genesis block again.
pub proof fn lemma_waits_use_configuration(
    state: ClientState,
    event: ClientEvent,
    trust_interval: Option<u64>,
    soft_ban: Option<u64>,
)
    requires
        expected(state, event),
        state != ClientState::Banned,
    ensures
        ({
            let ban: int = match soft_ban { Some(d) => d as int, None => 600 };
            let trust: int = match trust_interval { Some(t) => t as int, None => 60 };
            let (next, action) = next_spec(state, event, trust_interval, soft_ban);
            &&& next == ClientState::Banned ==> action == ClientAction::Sleep((2 * ban) as u64)
            &&& next is Resting ==> action == ClientAction::Sleep((trust - 19) as u64)
            &&& next is Pausing ==> action == ClientAction::Sleep(2)
            &&& next is Sending ==> action == ClientAction::Broadcast
            &&& next is Connecting ==> action == ClientAction::PullGenesis
        }),
        next_spec(ClientState::Banned, ClientEvent::Slept, trust_interval, soft_ban) == (
            ClientState::Connecting,
            ClientAction::PullGenesis,
        ),
{
}

} // verus!
