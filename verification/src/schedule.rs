//! The polling schedule: when the next pass over the playlists is due.
//!
//! The scheduler is a machine with two states. While a cycle runs it waits
//! for the cycle to finish; then it fixes the time of the next cycle, a whole
//! number of days later, and sleeps in short steps, looking at the clock after
//! each, until that time has come. Reading the clock, running a cycle and
//! sleeping are the caller's business: the caller performs the action the
//! machine asks for and reports back with the current time.

use vstd::prelude::*;

verus! {

/// The number of nanoseconds in a second.
pub const NANOS_PER_SECOND: u32 = 1_000_000_000;

/// The number of seconds in a day.
pub const SECONDS_PER_DAY: i64 = 86_400;

/// The length of one sleep while waiting, in seconds: a quarter of an hour.
pub const POLL_SECONDS: u64 = 900;

/// A point in time: whole seconds since the Unix epoch and the nanoseconds
/// into that second.
#[derive(Debug, Clone, Copy, PartialEq, Eq, Structural)]
pub struct Instant {
    pub secs: i64,
    pub nanos: u32,
}

impl View for Instant {
    type V = int;

    /// The point in time as nanoseconds since the Unix epoch.
    open spec fn view(&self) -> int {
        self.secs * (NANOS_PER_SECOND as int) + self.nanos
    }
}

impl Instant {
    /// Whether the nanoseconds stay within the second.
    pub open spec fn well_formed(&self) -> bool {
        self.nanos < NANOS_PER_SECOND
    }

    /// Makes a point in time, or `None` where `nanos` does not stay within
    /// the second.
    pub fn new(secs: i64, nanos: u32) -> (instant: Option<Instant>)
        ensures
            instant == if nanos < NANOS_PER_SECOND {
                Some(Instant { secs, nanos })
            } else {
                None
            },
    {
        if nanos < NANOS_PER_SECOND {
            Some(Instant { secs, nanos })
        } else {
            None
        }
    }

    /// Tells whether this point in time lies before `other`.
    pub fn is_before(&self, other: &Instant) -> (before: bool)
        requires
            self.well_formed(),
            other.well_formed(),
        ensures
            before == (self@ < other@),
    {
        self.secs < other.secs || (self.secs == other.secs && self.nanos < other.nanos)
    }
}

/// The point in time `days` days after the given one, as the calendar library
/// computes it, or `None` where that library cannot represent the start, the
/// span or the end.
pub uninterp spec fn days_later(secs: i64, nanos: u32, days: i64) -> Option<(i64, u32)>;

/// The latest second, counted from the epoch, from which [`next_run`] is
/// certain to find the next cycle: a point some 31 000 years after the epoch.
pub const LATEST_CERTAIN_SECOND: i64 = 1_000_000_000_000;

/// The longest interval, in days, for which [`next_run`] is certain to find
/// the next cycle: some 2 700 years.
pub const LONGEST_CERTAIN_INTERVAL: i64 = 1_000_000;

/// Whether a start and an interval are so far inside the calendar that the
/// time of the next cycle is certain to exist: a start between the epoch and
/// [`LATEST_CERTAIN_SECOND`], and at most [`LONGEST_CERTAIN_INTERVAL`] days
/// forward or backward.
pub open spec fn certainly_in_calendar(secs: i64, days: i64) -> bool {
    &&& 0 <= secs <= LATEST_CERTAIN_SECOND
    &&& -LONGEST_CERTAIN_INTERVAL <= days <= LONGEST_CERTAIN_INTERVAL
}

/// Adds a number of days to a point in time with `chrono`'s
/// `DateTime::checked_add_signed`. Its operands are made from the plain
/// values by `DateTime::from_timestamp` and `TimeDelta::try_days`, and its
/// result is read back with `timestamp` and `timestamp_subsec_nanos`; where
/// an operand cannot be made there is no end either.
///
/// Trusted, not proved: the outcome depends on the arguments alone; an end
/// that is returned lies `days` times 86 400 seconds after the start, at the
/// same nanosecond; and there is an end where [`certainly_in_calendar`]
/// holds, since `chrono` represents the seconds of more than 260 000 years
/// either side of the epoch and spans of up to `i64::MAX` milliseconds. For
/// which other arguments there is an end is left to `chrono`.
#[verifier::external_body]
fn add_days(secs: i64, nanos: u32, days: i64) -> (end: Option<(i64, u32)>)
    requires
        nanos < NANOS_PER_SECOND,
    ensures
        end == days_later(secs, nanos, days),
        end matches Some(time) ==> time.0 == secs + days * SECONDS_PER_DAY && time.1 == nanos,
        certainly_in_calendar(secs, days) ==> end is Some,
{
    let start = chrono::DateTime::<chrono::Utc>::from_timestamp(secs, nanos)?;
    let span = chrono::TimeDelta::try_days(days)?;
    let end = start.checked_add_signed(span)?;
    Some((end.timestamp(), end.timestamp_subsec_nanos()))
}

/// The time of the next cycle as a point in time.
pub open spec fn next_run_spec(now: Instant, interval_days: i64) -> Option<Instant> {
    match days_later(now.secs, now.nanos, interval_days) {
        Some(time) => Some(Instant { secs: time.0, nanos: time.1 }),
        None => None,
    }
}

/// Computes the time of the next cycle: `interval_days` days after `now`, to
/// the nanosecond. The result is `None` where that time, or `now` itself, is
/// beyond what the calendar can represent; it is never `None` where
/// [`certainly_in_calendar`] holds.
pub fn next_run(now: &Instant, interval_days: i64) -> (next: Option<Instant>)
    requires
        now.well_formed(),
    ensures
        next == next_run_spec(*now, interval_days),
        next matches Some(time) ==> {
            &&& time.well_formed()
            &&& time.secs == now.secs + interval_days * SECONDS_PER_DAY
            &&& time.nanos == now.nanos
            &&& time@ == now@ + interval_days * SECONDS_PER_DAY * NANOS_PER_SECOND
        },
        certainly_in_calendar(now.secs, interval_days) ==> next is Some,
{
    match add_days(now.secs, now.nanos, interval_days) {
        Some(time) => {
            assert((now.secs + interval_days * SECONDS_PER_DAY) * (NANOS_PER_SECOND as int)
                == now.secs * (NANOS_PER_SECOND as int) + interval_days * SECONDS_PER_DAY
                * NANOS_PER_SECOND) by (nonlinear_arith);
            Some(Instant { secs: time.0, nanos: time.1 })
        },
        None => None,
    }
}

/// Where the scheduler stands.
#[derive(Debug, Clone, Copy, PartialEq, Eq, Structural)]
pub enum SchedulerState {
    /// A pass over the playlists is under way.
    RunningCycle,
    /// The last pass is over; the next one is due at `until`.
    Waiting { until: Instant },
}

/// What the scheduler asks its caller to do next.
#[derive(Debug, Clone, Copy, PartialEq, Eq, Structural)]
pub enum SchedulerAction {
    /// Run a pass over every playlist, then report back.
    RunCycle,
    /// Sleep for this many seconds, then report back.
    Sleep { seconds: u64 },
}

/// Why the scheduler cannot go on.
#[derive(Debug, Clone, Copy, PartialEq, Eq, Structural)]
pub enum ScheduleError {
    /// The time of the next cycle is beyond what the calendar can represent.
    OutOfRange,
}

impl ScheduleError {
    /// A sentence that describes the error.
    pub fn message(&self) -> (text: String)
        ensures
            text@ == "Unable to add to duration!"@,
    {
        String::from_str("Unable to add to duration!")
    }
}

impl SchedulerState {
    /// Whether the time the state holds, if any, is well formed.
    pub open spec fn well_formed(&self) -> bool {
        match self {
            SchedulerState::RunningCycle => true,
            SchedulerState::Waiting { until } => until.well_formed(),
        }
    }
}

/// The state and the action at the start: the first cycle runs at once.
pub open spec fn start_spec() -> (SchedulerState, SchedulerAction) {
    (SchedulerState::RunningCycle, SchedulerAction::RunCycle)
}

/// What follows from looking at the clock while a cycle is due at `until`:
/// before that time another sleep of [`POLL_SECONDS`], from that time on the
/// cycle.
pub open spec fn poll_spec(now: Instant, until: Instant) -> (SchedulerState, SchedulerAction) {
    if now@ < until@ {
        (SchedulerState::Waiting { until }, SchedulerAction::Sleep { seconds: POLL_SECONDS })
    } else {
        (SchedulerState::RunningCycle, SchedulerAction::RunCycle)
    }
}

/// What follows from the end of a cycle at `now`, given the time of the next
/// cycle: the scheduler starts waiting for that time, or fails where there is
/// no such time.
pub open spec fn cycle_finished_spec(now: Instant, next: Option<Instant>) -> Result<
    (SchedulerState, SchedulerAction),
    ScheduleError,
> {
    match next {
        Some(until) => Ok(poll_spec(now, until)),
        None => Err(ScheduleError::OutOfRange),
    }
}

/// One step of the scheduler: in [`SchedulerState::RunningCycle`] the cycle
/// has just finished, in [`SchedulerState::Waiting`] a sleep has.
pub open spec fn step_spec(state: SchedulerState, now: Instant, interval_days: i64) -> Result<
    (SchedulerState, SchedulerAction),
    ScheduleError,
> {
    match state {
        SchedulerState::RunningCycle => cycle_finished_spec(
            now,
            next_run_spec(now, interval_days),
        ),
        SchedulerState::Waiting { until } => Ok(poll_spec(now, until)),
    }
}

/// Starts the scheduler.
pub fn start() -> (first: (SchedulerState, SchedulerAction))
    ensures
        first == start_spec(),
{
    (SchedulerState::RunningCycle, SchedulerAction::RunCycle)
}

/// Decides, at time `now`, between another sleep and the cycle that is due at
/// `until`.
pub fn poll(now: &Instant, until: &Instant) -> (next: (SchedulerState, SchedulerAction))
    requires
        now.well_formed(),
        until.well_formed(),
    ensures
        next == poll_spec(*now, *until),
        next.0.well_formed(),
{
    if now.is_before(until) {
        (SchedulerState::Waiting { until: *until }, SchedulerAction::Sleep { seconds: POLL_SECONDS })
    } else {
        (SchedulerState::RunningCycle, SchedulerAction::RunCycle)
    }
}

/// Decides what follows the end of a cycle at time `now`, where `next` is the
/// time of the next cycle as [`next_run`] gave it.
pub fn cycle_finished(now: &Instant, next: Option<Instant>) -> (outcome: Result<
    (SchedulerState, SchedulerAction),
    ScheduleError,
>)
    requires
        now.well_formed(),
        next matches Some(until) ==> until.well_formed(),
    ensures
        outcome == cycle_finished_spec(*now, next),
        outcome matches Ok(step) ==> step.0.well_formed(),
{
    match next {
        Some(until) => Ok(poll(now, &until)),
        None => Err(ScheduleError::OutOfRange),
    }
}

/// Takes one step of the scheduler at time `now`.
///
/// After a cycle the next one is fixed at `interval_days` days after `now`;
/// with an interval of zero or less it is due at once. While waiting, the
/// time that was fixed stays, and the cycle starts as soon as `now` has
/// reached it. The step fails only after a cycle, and only where the time of
/// the next cycle cannot be represented; it does not fail where
/// [`certainly_in_calendar`] holds.
pub fn step(state: &SchedulerState, now: &Instant, interval_days: i64) -> (outcome: Result<
    (SchedulerState, SchedulerAction),
    ScheduleError,
>)
    requires
        state.well_formed(),
        now.well_formed(),
    ensures
        outcome == step_spec(*state, *now, interval_days),
        outcome matches Ok(next) ==> next.0.well_formed(),
        *state is Waiting || certainly_in_calendar(now.secs, interval_days) ==> outcome is Ok,
        *state is RunningCycle ==> (outcome matches Ok(next) ==> (next.0 matches SchedulerState::Waiting {
            until,
        } ==> until.secs == now.secs + interval_days * SECONDS_PER_DAY && until.nanos
            == now.nanos)),
        *state is RunningCycle ==> (outcome matches Ok(next) ==> (next.1 is Sleep <==> interval_days
            > 0)),
{
    match state {
        SchedulerState::RunningCycle => {
            let next = next_run(now, interval_days);
            cycle_finished(now, next)
        },
        SchedulerState::Waiting { until } => Ok(poll(now, until)),
    }
}

/// While waiting, the scheduler never moves the time it waits for, asks for
/// nothing but a sleep of [`POLL_SECONDS`] before that time, and asks for the
/// cycle from that time on.
pub proof fn lemma_waiting_ends_on_time(until: Instant, now: Instant, interval_days: i64)
    ensures
        now@ < until@ ==> step_spec(SchedulerState::Waiting { until }, now, interval_days) == Ok::<
            (SchedulerState, SchedulerAction),
            ScheduleError,
        >((SchedulerState::Waiting { until }, SchedulerAction::Sleep { seconds: POLL_SECONDS })),
        now@ >= until@ ==> step_spec(SchedulerState::Waiting { until }, now, interval_days) == Ok::<
            (SchedulerState, SchedulerAction),
            ScheduleError,
        >((SchedulerState::RunningCycle, SchedulerAction::RunCycle)),
{
}

/// The scheduler has no final state: whatever a step returns without an
/// error is a state from which a step can be taken again, and the action it
/// asks for is the cycle exactly when that state is
/// [`SchedulerState::RunningCycle`].
pub proof fn lemma_no_final_state(state: SchedulerState, now: Instant, interval_days: i64)
    ensures
        step_spec(state, now, interval_days) matches Ok(next) ==> (next.0 is RunningCycle
            <==> next.1 is RunCycle),
{
}

} // verus!
