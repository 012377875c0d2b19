//! The monitoring state machine: an entry/backoff regime that resolves
//! readiness and escalates waits, and a steady regime that polls
//! presence and drives the companion player. The machine is a pure
//! transition function of state and observation; the loop around it
//! performs the actions and feeds the next observation back.
use crate::codec::views_of;
use crate::datastructures::Client;
use crate::datastructures::QueryResult;
use crate::datastructures::WhoAmI;
use rand::Rng;
use vstd::prelude::*;

verus! {

/// Escalating wait, in seconds, applied after a repeated not-ready
/// condition: 5 minutes, then 30, then 60 for every later attempt.
pub open spec fn spec_backoff_secs(attempt: u64) -> u64 {
    if attempt <= 1 {
        300
    } else if attempt == 2 {
        1800
    } else {
        3600
    }
}

/// The backoff tier for the given attempt number.
pub fn backoff_secs(attempt: u64) -> (r: u64)
    ensures
        r == spec_backoff_secs(attempt),
{
    if attempt <= 1 {
        300
    } else if attempt == 2 {
        1800
    } else {
        3600
    }
}

/// A later attempt never waits less.
pub proof fn lemma_backoff_monotone(a1: u64, a2: u64)
    requires
        a1 <= a2,
    ensures
        spec_backoff_secs(a1) <= spec_backoff_secs(a2),
{
}

/// No attempt waits more than an hour.
pub proof fn lemma_backoff_capped(a: u64)
    ensures
        spec_backoff_secs(a) <= 3600,
{
}

/// What the readiness-resolution routine found.
#[derive(Clone, Copy, Debug, PartialEq, Eq, Structural)]
pub enum ReadinessOutcome {
    /// The identity is already placed: nothing stands in the way.
    Online,
    /// The watched identity is active elsewhere.
    TargetDetected,
    /// A second session already runs under the own identity.
    DuplicateClient,
    /// Not placed anywhere yet, but now ready to monitor.
    NotOnline,
}

/// Where the monitor stands.
#[derive(Clone, Copy, Debug, PartialEq, Eq, Structural)]
pub enum MonitorState {
    /// The connection is being established.
    Connecting,
    /// Deciding whether monitoring can start.
    ResolvingReadiness { attempt: u64 },
    /// Waiting out a backoff tier before resolving again.
    BackoffWait { attempt: u64, remaining: u64 },
    /// Polling presence and driving the companion player.
    SteadyMonitoring,
}

/// What the surrounding loop observed.
#[derive(Clone, Copy, Debug, PartialEq, Eq, Structural)]
pub enum MonitorEvent {
    /// The transport is up.
    Connected,
    /// The identity query succeeded.
    IdentityConfirmed,
    /// The identity query failed with the not-placed status, a control
    /// signal rather than a failure.
    NotPlaced,
    /// The readiness-resolution routine reported its outcome.
    Readiness { outcome: ReadinessOutcome },
    /// The backoff wait ran out.
    BackoffElapsed,
    /// The identity query failed with any other status.
    FatalStatus { code: i32 },
    /// The cancellation signal fired.
    Cancelled,
}

/// What the surrounding loop must do next.
#[derive(Clone, Copy, Debug, PartialEq, Eq, Structural)]
pub enum MonitorAction {
    /// Issue the identity query.
    QueryIdentity,
    /// Run the readiness-resolution routine.
    ResolveReadiness,
    /// Sleep for the given seconds, racing the cancellation signal.
    Sleep { secs: u64 },
    /// Begin the steady monitoring loop.
    EnterSteady,
    /// End the run cooperatively.
    Stop,
    /// End the run as a failure.
    Abort,
}

/// One saturating step of the attempt counter.
pub open spec fn spec_next_attempt(attempt: u64) -> u64 {
    if attempt == 0xffff_ffff_ffff_ffff {
        attempt
    } else {
        (attempt + 1) as u64
    }
}

/// The transition table. Cancellation stops the run from any state;
/// the not-placed status is routed into readiness resolution, never
/// treated as fatal; a detected target or a duplicate session raises
/// the attempt counter and waits out its backoff tier; any observation
/// a state cannot answer aborts the run.
pub open spec fn spec_monitor_step(s: MonitorState, e: MonitorEvent) -> (MonitorState, MonitorAction) {
    match (s, e) {
        (_, MonitorEvent::Cancelled) => (s, MonitorAction::Stop),
        (MonitorState::Connecting, MonitorEvent::Connected) => (
            MonitorState::ResolvingReadiness { attempt: 0 },
            MonitorAction::QueryIdentity,
        ),
        (MonitorState::ResolvingReadiness { attempt }, MonitorEvent::IdentityConfirmed) => (
            MonitorState::SteadyMonitoring,
            MonitorAction::EnterSteady,
        ),
        (MonitorState::ResolvingReadiness { attempt }, MonitorEvent::NotPlaced) => (
            MonitorState::ResolvingReadiness { attempt },
            MonitorAction::ResolveReadiness,
        ),
        (MonitorState::ResolvingReadiness { attempt }, MonitorEvent::Readiness { outcome }) => match outcome {
            ReadinessOutcome::Online => (MonitorState::SteadyMonitoring, MonitorAction::EnterSteady),
            ReadinessOutcome::NotOnline => (
                MonitorState::SteadyMonitoring,
                MonitorAction::EnterSteady,
            ),
            ReadinessOutcome::TargetDetected => (
                MonitorState::BackoffWait {
                    attempt: spec_next_attempt(attempt),
                    remaining: spec_backoff_secs(spec_next_attempt(attempt)),
                },
                MonitorAction::Sleep { secs: spec_backoff_secs(spec_next_attempt(attempt)) },
            ),
            ReadinessOutcome::DuplicateClient => (
                MonitorState::BackoffWait {
                    attempt: spec_next_attempt(attempt),
                    remaining: spec_backoff_secs(spec_next_attempt(attempt)),
                },
                MonitorAction::Sleep { secs: spec_backoff_secs(spec_next_attempt(attempt)) },
            ),
        },
        (MonitorState::ResolvingReadiness { attempt }, MonitorEvent::FatalStatus { code }) => (
            s,
            MonitorAction::Abort,
        ),
        (MonitorState::BackoffWait { attempt, remaining }, MonitorEvent::BackoffElapsed) => (
            MonitorState::ResolvingReadiness { attempt },
            MonitorAction::QueryIdentity,
        ),
        _ => (s, MonitorAction::Abort),
    }
}

fn next_attempt(attempt: u64) -> (r: u64)
    ensures
        r == spec_next_attempt(attempt),
{
    if attempt == 0xffff_ffff_ffff_ffff {
        attempt
    } else {
        attempt + 1
    }
}

/// Drive the machine by one observation.
pub fn monitor_step(s: MonitorState, e: MonitorEvent) -> (r: (MonitorState, MonitorAction))
    ensures
        r == spec_monitor_step(s, e),
{
    match (s, e) {
        (_, MonitorEvent::Cancelled) => (s, MonitorAction::Stop),
        (MonitorState::Connecting, MonitorEvent::Connected) => (
            MonitorState::ResolvingReadiness { attempt: 0 },
            MonitorAction::QueryIdentity,
        ),
        (MonitorState::ResolvingReadiness { attempt: _ }, MonitorEvent::IdentityConfirmed) => (
            MonitorState::SteadyMonitoring,
            MonitorAction::EnterSteady,
        ),
        (MonitorState::ResolvingReadiness { attempt }, MonitorEvent::NotPlaced) => (
            MonitorState::ResolvingReadiness { attempt },
            MonitorAction::ResolveReadiness,
        ),
        (MonitorState::ResolvingReadiness { attempt }, MonitorEvent::Readiness { outcome }) => match outcome {
            ReadinessOutcome::Online => (
                MonitorState::SteadyMonitoring,
                MonitorAction::EnterSteady,
            ),
            ReadinessOutcome::NotOnline => (
                MonitorState::SteadyMonitoring,
                MonitorAction::EnterSteady,
            ),
            ReadinessOutcome::TargetDetected => {
                let a = next_attempt(attempt);
                let secs = backoff_secs(a);
                (MonitorState::BackoffWait { attempt: a, remaining: secs }, MonitorAction::Sleep {
                    secs,
                })
            },
            ReadinessOutcome::DuplicateClient => {
                let a = next_attempt(attempt);
                let secs = backoff_secs(a);
                (MonitorState::BackoffWait { attempt: a, remaining: secs }, MonitorAction::Sleep {
                    secs,
                })
            },
        },
        (MonitorState::ResolvingReadiness { attempt: _ }, MonitorEvent::FatalStatus {
            code: _,
        }) => (s, MonitorAction::Abort),
        (MonitorState::BackoffWait { attempt, remaining: _ }, MonitorEvent::BackoffElapsed) => (
            MonitorState::ResolvingReadiness { attempt },
            MonitorAction::QueryIdentity,
        ),
        _ => (s, MonitorAction::Abort),
    }
}

/// The attempt counter a state carries.
pub open spec fn spec_attempt_of(s: MonitorState) -> int {
    match s {
        MonitorState::ResolvingReadiness { attempt } => attempt as int,
        MonitorState::BackoffWait { attempt, .. } => attempt as int,
        _ => 0,
    }
}

/// The not-placed status is converted into a control-flow branch, never
/// surfaced as a failure: in the readiness regime it always leads to the
/// resolution routine, in the same state.
pub proof fn lemma_not_placed_routes(s: MonitorState)
    requires
        s is ResolvingReadiness,
    ensures
        spec_monitor_step(s, MonitorEvent::NotPlaced).1 == MonitorAction::ResolveReadiness,
        spec_monitor_step(s, MonitorEvent::NotPlaced).0 == s,
{
}

/// The attempt counter only climbs while the run stays in the
/// entry/backoff regime; it is left behind only by reaching the steady
/// regime or by ending the run.
pub proof fn lemma_attempt_monotone(s: MonitorState, e: MonitorEvent)
    ensures
        ({
            let next = spec_monitor_step(s, e).0;
            next is SteadyMonitoring || next is Connecting || spec_attempt_of(next)
                >= spec_attempt_of(s)
        }),
{
}

/// A backoff entered from the readiness regime waits its tier exactly:
/// the wait the machine orders equals the tier of the attempt it
/// records, and never exceeds the hour cap.
pub proof fn lemma_backoff_wait_exact(s: MonitorState, e: MonitorEvent)
    requires
        s is ResolvingReadiness,
    ensures
        ({
            let (next, action) = spec_monitor_step(s, e);
            next matches MonitorState::BackoffWait { attempt, remaining } ==> {
                &&& remaining == spec_backoff_secs(attempt)
                &&& action == (MonitorAction::Sleep { secs: remaining })
                &&& remaining <= 3600
            }
        }),
{
}

/// The readiness-resolution verdict, from what the external presence
/// check reported: a second session already running under the own
/// identity wins over a watched identity active elsewhere; with neither
/// in the way, the destination channel is joined and the monitor is
/// ready.
pub fn resolve_readiness(target_active: bool, self_duplicate: bool) -> (r: ReadinessOutcome)
    ensures
        r == if self_duplicate {
            ReadinessOutcome::DuplicateClient
        } else if target_active {
            ReadinessOutcome::TargetDetected
        } else {
            ReadinessOutcome::NotOnline
        },
{
    if self_duplicate {
        ReadinessOutcome::DuplicateClient
    } else if target_active {
        ReadinessOutcome::TargetDetected
    } else {
        ReadinessOutcome::NotOnline
    }
}

/// What one steady tick decided.
#[derive(Clone, Copy, Debug, PartialEq, Eq, Structural)]
pub struct TickDecision {
    /// Disconnect and end the run: the watched identity is present and
    /// the configuration asks for exit on detection.
    pub stop: bool,
    /// Proactively disconnect the second session running under the own
    /// identity, without ending the run.
    pub guard_disconnect: bool,
    /// Set playback to this, if playback and presence are in sync in
    /// the wrong direction.
    pub toggle_to: Option<bool>,
}

/// One steady tick: presence beats everything when exit-on-detect is
/// set; otherwise a duplicate session is disconnected and playback is
/// toggled to the opposite of presence exactly when the two agree.
pub fn tick_decision(present: bool, duplicate: bool, playing: bool, exit_on_detect: bool) -> (r:
    TickDecision)
    ensures
        r.stop == (present && exit_on_detect),
        r.guard_disconnect == (!r.stop && duplicate),
        r.toggle_to == (if !r.stop && playing == present {
            Some(!present)
        } else {
            None::<bool>
        }),
{
    if present && exit_on_detect {
        TickDecision { stop: true, guard_disconnect: false, toggle_to: None }
    } else {
        TickDecision {
            stop: false,
            guard_disconnect: duplicate,
            toggle_to: if playing == present {
                Some(!present)
            } else {
                None
            },
        }
    }
}

/// Whether any listed client's persistent id is in the watched set.
pub fn presence_in_watched(clients: &Vec<Client>, watched: &Vec<i64>) -> (r: bool)
    ensures
        r == exists|i: int, j: int|
            0 <= i < clients@.len() && 0 <= j < watched@.len() && views_of(
                clients@,
            )[i].client_database_id == watched@[j] as int,
{
    let ghost cs = views_of(clients@);
    let n = clients.len();
    let mut k: usize = 0;
    while k < n
        invariant
            n == clients@.len(),
            cs == views_of(clients@),
            cs.len() == n,
            k <= n,
            forall|i: int, j: int|
                0 <= i < k && 0 <= j < watched@.len() ==> cs[i].client_database_id != watched@[j],
        decreases n - k,
    {
        let dbid = clients[k].client_database_id();
        if watched_contains(watched, dbid) {
            proof {
                let j = choose|j: int| 0 <= j < watched@.len() && watched@[j] == dbid;
                assert(views_of(clients@)[k as int].client_database_id == watched@[j] as int);
            }
            return true;
        }
        k += 1;
    }
    false
}

fn watched_contains(watched: &Vec<i64>, dbid: i64) -> (r: bool)
    ensures
        r == exists|j: int| 0 <= j < watched@.len() && watched@[j] == dbid,
{
    let n = watched.len();
    let mut j: usize = 0;
    while j < n
        invariant
            n == watched@.len(),
            j <= n,
            forall|t: int| 0 <= t < j ==> watched@[t] != dbid,
        decreases n - j,
    {
        if watched[j] == dbid {
            return true;
        }
        j += 1;
    }
    false
}

/// Turn the identity query's outcome into the machine's observation:
/// success confirms the identity, the not-placed status is the control
/// signal, and every other status is fatal.
pub fn classify_identity_result(r: &QueryResult<WhoAmI>) -> (e: MonitorEvent)
    ensures
        r is Ok ==> e == MonitorEvent::IdentityConfirmed,
        r is Err && r->Err_0@.code == 1794 ==> e == MonitorEvent::NotPlaced,
        r is Err && r->Err_0@.code != 1794 ==> (e matches MonitorEvent::FatalStatus { code } && code
            as int == r->Err_0@.code),
{
    match r {
        Ok(_) => MonitorEvent::IdentityConfirmed,
        Err(err) => {
            let code = err.code();
            if code == 1794 {
                MonitorEvent::NotPlaced
            } else {
                MonitorEvent::FatalStatus { code }
            }
        },
    }
}

/// Relies on rand's `Rng::gen_range` through `thread_rng`: a uniform
/// draw from the half-open range, which needs a nonempty range and
/// never returns `hi` or more.
#[verifier::external_body]
fn sample_range_secs(lo: u64, hi: u64) -> (r: u64)
    requires
        lo < hi,
    ensures
        lo <= r < hi,
{
    rand::thread_rng().gen_range(lo..hi)
}

/// The spacing before the next steady tick, drawn anew each time from
/// the tuned window of 50 to 69 seconds.
pub fn steady_tick_secs() -> (r: u64)
    ensures
        50 <= r < 70,
{
    sample_range_secs(50, 70)
}

} // verus!
