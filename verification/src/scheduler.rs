//! The interval scheduler: a state machine driven by clock-aligned timer
//! ticks and by reconfiguration/stop commands. Each tick is classified as
//! idle or active; idle ticks book an away entry for the interval that just
//! ended, and the first active tick after an away span reports that span.
//! The surrounding application owns the timer and the channels, performs the
//! returned effects, and feeds the next event back in.

use vstd::arithmetic::div_mod::lemma_fundamental_div_mod;
use vstd::arithmetic::div_mod::lemma_mod_add_multiples_vanish;
use vstd::arithmetic::div_mod::lemma_mod_multiples_basic;
use vstd::arithmetic::div_mod::lemma_mod_self_0;
use vstd::arithmetic::div_mod::lemma_small_mod;
use vstd::prelude::*;

use crate::models::TimeEntry;
use crate::text::clock_label;
use crate::notify::prompt_body_text;
use crate::notify::prompt_notification_body;
use crate::idle::is_user_idle;

verus! {

/// Largest accepted interval length in minutes: the persisted away entries
/// store the duration as an `i32`, which this bound keeps exact.
pub const MAX_INTERVAL_MINUTES: u64 = 0x7FFF_FFFF;

/// The only mutation vector into a running scheduler.
pub enum TimerCommand {
    UpdateInterval(u64),
    Stop,
}

/// An epoch second truncated down to the nearest multiple of `isec` seconds.
pub open spec fn align_down(ts: int, isec: int) -> int {
    (ts / isec) * isec
}

/// The start of the interval a tick at `now` reports on: `now` aligned down
/// to the interval boundary, minus one full interval, since a tick reports
/// on the interval that has just ended.
pub open spec fn report_start(now: int, interval_minutes: u64) -> int {
    align_down(now, interval_minutes * 60) - interval_minutes * 60
}

/// Truncates an epoch second down to the nearest multiple of the interval
/// length.
pub fn align_timestamp(timestamp: i64, interval_minutes: i64) -> (r: i64)
    requires
        1 <= interval_minutes <= MAX_INTERVAL_MINUTES,
        i64::MIN + interval_minutes * 60 <= timestamp,
    ensures
        r == align_down(timestamp as int, interval_minutes * 60),
        (r as int) % (interval_minutes * 60) == 0,
        r <= timestamp < r + interval_minutes * 60,
{
    let isec: i64 = interval_minutes * 60;
    proof {
        let t = timestamp as int;
        let d = isec as int;
        lemma_fundamental_div_mod(t, d);
        assert(0 <= t % d < d);
        let q = t / d;
        assert(t == d * q + t % d);
        if t >= 0 {
            assert(q >= 0) by (nonlinear_arith)
                requires
                    d >= 1 && t >= 0 && t == d * q + t % d && 0 <= t % d < d,
            ;
            assert(q <= d * q) by (nonlinear_arith)
                requires
                    d >= 1 && q >= 0,
            ;
        } else {
            assert(q < 0) by (nonlinear_arith)
                requires
                    d >= 1 && t < 0 && t == d * q + t % d && 0 <= t % d < d,
            ;
            assert(d * q <= q) by (nonlinear_arith)
                requires
                    d >= 1 && q < 0,
            ;
        }
        lemma_mod_multiples_basic(q, d);
    }
    let q: i64 = timestamp.checked_div_euclid(isec).unwrap_or(0);
    let r: i64 = q.checked_mul(isec).unwrap_or(0);
    r
}

/// The seconds to wait from a local wall-clock position `minute:second`
/// until the next instant whose minute count is a multiple of the interval
/// and whose second is zero. The result is the unique such wait below one
/// full interval, so the timer neither drifts nor skips a boundary.
pub fn seconds_until_next_boundary(interval_minutes: u64, minute: u32, second: u32) -> (r: u64)
    requires
        1 <= interval_minutes <= MAX_INTERVAL_MINUTES,
        minute < 60,
        second < 60,
    ensures
        r < interval_minutes * 60,
        (minute * 60 + second + r) % (interval_minutes * 60) == 0,
{
    let m32: u32 = interval_minutes as u32;
    let minutes_until_next: u32 = (m32 - (minute % m32)) % m32;
    proof {
        let m = interval_minutes as int;
        let big_m = minute as int;
        lemma_fundamental_div_mod(big_m, m);
        if big_m % m != 0 {
            lemma_small_mod((m - big_m % m) as nat, m as nat);
            assert(minutes_until_next == m - big_m % m);
            assert((big_m + (m - big_m % m)) == m * (big_m / m) + m);
            assert(((m * (big_m / m) + m) * 60) == (big_m / m + 1) * (m * 60))
                by (nonlinear_arith);
            lemma_mod_multiples_basic(big_m / m + 1, m * 60);
        } else {
            lemma_mod_self_0(m);
            assert(minutes_until_next == 0);
            assert(big_m == m * (big_m / m));
            assert((m * (big_m / m)) * 60 == (big_m / m) * (m * 60)) by (nonlinear_arith);
            assert(((m * (big_m / m)) + m) * 60 == (big_m / m + 1) * (m * 60))
                by (nonlinear_arith);
            lemma_mod_multiples_basic(big_m / m, m * 60);
            lemma_mod_multiples_basic(big_m / m + 1, m * 60);
        }
    }
    if minutes_until_next > 0 {
        (minutes_until_next as u64) * 60 - (second as u64)
    } else if second > 0 {
        interval_minutes * 60 - (second as u64)
    } else {
        0
    }
}

/// Everything a tick decision depends on, gathered by the caller right
/// before the tick is handled: the clock, the idle measurement, and a fresh
/// read of the relevant settings.
pub struct TickInput {
    /// The current epoch second.
    pub now: i64,
    /// The local time zone's offset from UTC at `now`, in seconds.
    pub utc_offset_seconds: i32,
    /// Milliseconds since the last user input, as the platform reports it.
    pub idle_milliseconds: u64,
    /// The configured idle threshold, read fresh for this tick.
    pub idle_threshold_minutes: u32,
    /// Whether prompt notifications are enabled, read fresh for this tick.
    pub notification_enabled: bool,
    /// The configured notification sound name, read fresh for this tick.
    pub notification_sound: String,
}

impl TickInput {
    /// The machine bounds under which a tick can be handled for an interval
    /// of `interval_minutes` minutes: the offset is a valid time-zone
    /// offset, and `now` is far enough from the `i64` edges that the
    /// reported interval and its wall-clock labels can be computed.
    pub open spec fn valid(self, interval_minutes: u64) -> bool {
        &&& -86400 < self.utc_offset_seconds < 86400
        &&& i64::MIN + 2 * (interval_minutes * 60) + 86400 < self.now
        &&& self.now < i64::MAX - 86400
    }
}

/// Whether a tick classifies the user as idle: the measured idle time has
/// reached the threshold, boundary inclusive.
pub open spec fn classified_idle(input: TickInput) -> bool {
    crate::idle::is_idle(input.idle_milliseconds, input.idle_threshold_minutes)
}

/// The away span reported when the user returns: the boundary recorded when
/// idleness was first observed, and the boundary of the tick that found the
/// user active again.
pub struct AwaySpan {
    pub away_start: i64,
    pub away_end: i64,
}

/// A prompt notification to hand to the platform notification sink.
pub struct PromptNotification {
    pub title: String,
    pub body: String,
    pub sound: String,
}

/// What one tick asks the surrounding application to do. Every field is
/// fire-and-forget: a failure to perform one must not stop the loop.
pub struct TickOutcome {
    /// An away entry to persist; present on every idle tick.
    pub away_entry: Option<TimeEntry>,
    /// A `return-from-away` event to emit.
    pub return_from_away: Option<AwaySpan>,
    /// A human-readable notification to show.
    pub notification: Option<PromptNotification>,
    /// A machine-readable `prompt-time-entry` event to emit, carrying the
    /// reported interval's start.
    pub prompt_timestamp: Option<i64>,
    /// Whether to show and focus the primary window.
    pub show_window: bool,
}

/// What handling one command asks the surrounding application to do.
pub struct CommandOutcome {
    /// Re-arm the timer at a fresh clock-aligned boundary for this many
    /// minutes, discarding any progress toward the old boundary.
    pub rearm_interval_minutes: Option<u64>,
    /// Leave the scheduling loop; nothing further is handled.
    pub exit: bool,
}

/// The scheduler's state: the live interval length, the start of the
/// current away span if one is open, and whether `Stop` was processed.
pub struct Scheduler {
    pub interval_minutes: u64,
    pub idle_start: Option<i64>,
    pub stopped: bool,
}

/// A command the scheduler accepts: `UpdateInterval` only with a positive
/// interval that the persisted entry duration can hold.
pub open spec fn valid_command(cmd: TimerCommand) -> bool {
    cmd matches TimerCommand::UpdateInterval(n) ==> 1 <= n <= MAX_INTERVAL_MINUTES
}

/// The state after one tick: a stopped scheduler ignores it; an idle tick
/// opens the away span at the reported boundary if none is open; an active
/// tick closes it.
pub open spec fn spec_handle_tick(s: Scheduler, input: TickInput) -> Scheduler {
    if s.stopped {
        s
    } else if classified_idle(input) {
        Scheduler {
            idle_start: Some(
                match s.idle_start {
                    Some(t) => t,
                    None => report_start(input.now as int, s.interval_minutes) as i64,
                },
            ),
            ..s
        }
    } else {
        Scheduler { idle_start: None, ..s }
    }
}

/// The state after one command: a stopped scheduler ignores it;
/// `UpdateInterval` replaces the interval and preserves the away state;
/// `Stop` is terminal.
pub open spec fn spec_handle_command(s: Scheduler, cmd: TimerCommand) -> Scheduler {
    if s.stopped {
        s
    } else {
        match cmd {
            TimerCommand::UpdateInterval(n) => Scheduler { interval_minutes: n, ..s },
            TimerCommand::Stop => Scheduler { stopped: true, ..s },
        }
    }
}

/// An away entry as the scheduler books it: flagged away, categorised
/// `away`, spanning one interval from the reported boundary, and nothing
/// else set.
pub open spec fn away_entry_matches(e: TimeEntry, start: int, duration_minutes: int) -> bool {
    &&& e.id is None
    &&& e.timestamp == start
    &&& e.category@ == "away"@
    &&& e.duration_minutes == duration_minutes
    &&& e.is_away
    &&& !e.is_retroactive
    &&& e.notes is None
    &&& e.created_at is None
}

/// A tick outcome that asks for nothing.
pub open spec fn empty_tick_outcome(o: TickOutcome) -> bool {
    &&& o.away_entry is None
    &&& o.return_from_away is None
    &&& o.notification is None
    &&& o.prompt_timestamp is None
    &&& !o.show_window
}

/// What the outcome of one tick must hold, given the state the tick found.
pub open spec fn tick_outcome_ok(s: Scheduler, input: TickInput, o: TickOutcome) -> bool {
    if s.stopped {
        empty_tick_outcome(o)
    } else {
        let start = report_start(input.now as int, s.interval_minutes);
        if classified_idle(input) {
            &&& o.away_entry matches Some(e) && away_entry_matches(
                e,
                start,
                s.interval_minutes as int,
            )
            &&& o.return_from_away is None
            &&& o.notification is None
            &&& o.prompt_timestamp is None
            &&& !o.show_window
        } else {
            &&& o.away_entry is None
            &&& (match s.idle_start {
                Some(t) => o.return_from_away matches Some(sp) && sp.away_start == t
                    && sp.away_end == start,
                None => o.return_from_away is None,
            })
            &&& (if input.notification_enabled {
                o.notification matches Some(n) && n.title@ == crate::notify::prompt_title_text()
                    && n.body@ == prompt_body_text(
                    start,
                    s.interval_minutes,
                    input.utc_offset_seconds as int,
                ) && n.sound@ == input.notification_sound@
            } else {
                o.notification is None
            })
            &&& o.prompt_timestamp == Some(start as i64)
            &&& o.show_window
        }
    }
}

/// What the outcome of one command must hold, given the state the command
/// found.
pub open spec fn command_outcome_ok(s: Scheduler, cmd: TimerCommand, o: CommandOutcome) -> bool {
    if s.stopped {
        o.rearm_interval_minutes is None && !o.exit
    } else {
        match cmd {
            TimerCommand::UpdateInterval(n) => o.rearm_interval_minutes == Some(n) && !o.exit,
            TimerCommand::Stop => o.rearm_interval_minutes is None && o.exit,
        }
    }
}

impl Scheduler {
    /// A positive interval that the persisted entry duration can hold.
    pub open spec fn wf(self) -> bool {
        1 <= self.interval_minutes <= MAX_INTERVAL_MINUTES
    }

    /// A scheduler as it starts: in the active state, with the configured
    /// interval.
    pub fn new(initial_interval_minutes: u64) -> (r: Scheduler)
        requires
            1 <= initial_interval_minutes <= MAX_INTERVAL_MINUTES,
        ensures
            r.wf(),
            r.interval_minutes == initial_interval_minutes,
            r.idle_start is None,
            !r.stopped,
    {
        Scheduler { interval_minutes: initial_interval_minutes, idle_start: None, stopped: false }
    }

    /// Handles one timer tick: classifies it as idle or active from the
    /// gathered input, updates the away state, and returns the effects the
    /// caller must perform. A stopped scheduler changes nothing and asks
    /// for nothing.
    pub fn handle_tick(&mut self, input: &TickInput) -> (o: TickOutcome)
        requires
            old(self).wf(),
            input.valid(old(self).interval_minutes),
        ensures
            *final(self) == spec_handle_tick(*old(self), *input),
            final(self).wf(),
            tick_outcome_ok(*old(self), *input, o),
    {
        if self.stopped {
            return TickOutcome {
                away_entry: None,
                return_from_away: None,
                notification: None,
                prompt_timestamp: None,
                show_window: false,
            };
        }
        let m: u64 = self.interval_minutes;
        let isec: i64 = (m as i64) * 60;
        let aligned: i64 = align_timestamp(input.now, m as i64);
        let start: i64 = aligned - isec;
        if is_user_idle(input.idle_milliseconds, input.idle_threshold_minutes) {
            if self.idle_start.is_none() {
                self.idle_start = Some(start);
            }
            let entry = TimeEntry {
                id: None,
                timestamp: start,
                category: "away".to_owned(),
                duration_minutes: m as i32,
                is_away: true,
                is_retroactive: false,
                notes: None,
                created_at: None,
            };
            TickOutcome {
                away_entry: Some(entry),
                return_from_away: None,
                notification: None,
                prompt_timestamp: None,
                show_window: false,
            }
        } else {
            let returned: Option<AwaySpan> = match self.idle_start {
                Some(t) => Some(AwaySpan { away_start: t, away_end: start }),
                None => None,
            };
            self.idle_start = None;
            let notification: Option<PromptNotification> = if input.notification_enabled {
                let start_label = clock_label(start, input.utc_offset_seconds);
                let end_label = clock_label(aligned, input.utc_offset_seconds);
                let body = prompt_notification_body(start_label.as_str(), end_label.as_str());
                proof {
                    assert(body@ =~= prompt_body_text(
                        start as int,
                        m,
                        input.utc_offset_seconds as int,
                    ));
                }
                Some(
                    PromptNotification {
                        title: "Time Tracker".to_owned(),
                        body,
                        sound: input.notification_sound.clone(),
                    },
                )
            } else {
                None
            };
            TickOutcome {
                away_entry: None,
                return_from_away: returned,
                notification,
                prompt_timestamp: Some(start),
                show_window: true,
            }
        }
    }

    /// Handles one command: `UpdateInterval` swaps the interval and asks the
    /// caller to re-arm the timer at a fresh boundary for the new length,
    /// preserving the away state; `Stop` makes the scheduler terminal. A
    /// stopped scheduler changes nothing and asks for nothing.
    pub fn handle_command(&mut self, cmd: TimerCommand) -> (o: CommandOutcome)
        requires
            old(self).wf(),
            valid_command(cmd),
        ensures
            *final(self) == spec_handle_command(*old(self), cmd),
            final(self).wf(),
            command_outcome_ok(*old(self), cmd, o),
    {
        if self.stopped {
            return CommandOutcome { rearm_interval_minutes: None, exit: false };
        }
        match cmd {
            TimerCommand::UpdateInterval(n) => {
                self.interval_minutes = n;
                CommandOutcome { rearm_interval_minutes: Some(n), exit: false }
            },
            TimerCommand::Stop => {
                self.stopped = true;
                CommandOutcome { rearm_interval_minutes: None, exit: true }
            },
        }
    }
}

/// An append-only log of time entries: the in-memory double of the
/// persistence sink, which the scheduler only ever appends to.
pub struct EntryLog {
    entries: Vec<TimeEntry>,
}

impl EntryLog {
    /// The entries appended so far, oldest first.
    pub closed spec fn log(self) -> Seq<TimeEntry> {
        self.entries@
    }

    /// An empty log.
    pub fn new() -> (r: EntryLog)
        ensures
            r.log() == Seq::<TimeEntry>::empty(),
    {
        EntryLog { entries: Vec::new() }
    }

    /// Appends one entry; nothing already logged changes.
    pub fn append(&mut self, e: TimeEntry)
        ensures
            final(self).log() == old(self).log().push(e),
    {
        self.entries.push(e);
    }

    /// How many entries the log holds.
    pub fn len(&self) -> (r: usize)
        ensures
            r == self.log().len(),
    {
        self.entries.len()
    }

    /// The entry at an index, oldest first.
    pub fn get(&self, i: usize) -> (r: &TimeEntry)
        requires
            i < self.log().len(),
        ensures
            *r == self.log()[i as int],
    {
        &self.entries[i]
    }
}

/// Handles one tick and performs its persistence effect against the given
/// log: an idle tick appends exactly its one away entry, and an active tick
/// appends nothing. The remaining effects are returned for the caller.
pub fn process_tick(sched: &mut Scheduler, log: &mut EntryLog, input: &TickInput) -> (o:
    TickOutcome)
    requires
        old(sched).wf(),
        input.valid(old(sched).interval_minutes),
    ensures
        *final(sched) == spec_handle_tick(*old(sched), *input),
        final(sched).wf(),
        tick_outcome_ok(*old(sched), *input, o),
        !old(sched).stopped && classified_idle(*input) ==> (o.away_entry matches Some(e)
            && final(log).log() == old(log).log().push(e)),
        old(sched).stopped || !classified_idle(*input) ==> final(log).log() == old(log).log(),
{
    let o = sched.handle_tick(input);
    match &o.away_entry {
        Some(e) => {
            let copy = TimeEntry {
                id: e.id,
                timestamp: e.timestamp,
                category: e.category.clone(),
                duration_minutes: e.duration_minutes,
                is_away: e.is_away,
                is_retroactive: e.is_retroactive,
                notes: match &e.notes {
                    Some(n) => Some(n.clone()),
                    None => None,
                },
                created_at: e.created_at,
            };
            log.append(copy);
        },
        None => (),
    }
    o
}

/// Aligning an epoch second that sits exactly on a boundary leaves it
/// unchanged.
proof fn lemma_align_down_of_multiple(t: int, d: int)
    requires
        d >= 1,
        t % d == 0,
    ensures
        align_down(t, d) == t,
{
    lemma_fundamental_div_mod(t, d);
}

/// A boundary plus one full interval is again a boundary.
proof fn lemma_next_boundary(t: int, d: int)
    requires
        d >= 1,
        t % d == 0,
    ensures
        (t + d) % d == 0,
{
    lemma_mod_add_multiples_vanish(t, d);
}

/// Three consecutive idle ticks, landing on three successive interval
/// boundaries, book exactly three away entries: one per tick, spanning the
/// three intervals that precede the ticks back to back, with no merging —
/// and no prompt, notification or return event fires meanwhile.
pub proof fn lemma_away_span_emission(
    s0: Scheduler,
    i1: TickInput,
    i2: TickInput,
    i3: TickInput,
    o1: TickOutcome,
    o2: TickOutcome,
    o3: TickOutcome,
)
    requires
        s0.wf(),
        !s0.stopped,
        i1.valid(s0.interval_minutes),
        i2.valid(s0.interval_minutes),
        i3.valid(s0.interval_minutes),
        classified_idle(i1),
        classified_idle(i2),
        classified_idle(i3),
        (i1.now as int) % (s0.interval_minutes * 60) == 0,
        i2.now == i1.now + s0.interval_minutes * 60,
        i3.now == i2.now + s0.interval_minutes * 60,
        tick_outcome_ok(s0, i1, o1),
        tick_outcome_ok(spec_handle_tick(s0, i1), i2, o2),
        tick_outcome_ok(spec_handle_tick(spec_handle_tick(s0, i1), i2), i3, o3),
    ensures
        o1.away_entry matches Some(e) && away_entry_matches(
            e,
            i1.now - s0.interval_minutes * 60,
            s0.interval_minutes as int,
        ),
        o2.away_entry matches Some(e) && away_entry_matches(
            e,
            i1.now as int,
            s0.interval_minutes as int,
        ),
        o3.away_entry matches Some(e) && away_entry_matches(
            e,
            i1.now + s0.interval_minutes * 60,
            s0.interval_minutes as int,
        ),
        o1.return_from_away is None && o2.return_from_away is None && o3.return_from_away
            is None,
        o1.notification is None && o2.notification is None && o3.notification is None,
        o1.prompt_timestamp is None && o2.prompt_timestamp is None && o3.prompt_timestamp
            is None,
{
    let d = s0.interval_minutes * 60;
    lemma_align_down_of_multiple(i1.now as int, d);
    lemma_next_boundary(i1.now as int, d);
    lemma_align_down_of_multiple(i2.now as int, d);
    lemma_next_boundary(i2.now as int, d);
    lemma_align_down_of_multiple(i3.now as int, d);
}

/// An idle tick at a boundary followed by an active tick one interval later
/// emits exactly one return-from-away event — whose span starts at the
/// boundary recorded when idleness began and ends at the active tick's
/// reported boundary — and exactly one away entry, booked by the idle tick.
pub proof fn lemma_return_from_away(
    s0: Scheduler,
    i1: TickInput,
    i2: TickInput,
    o1: TickOutcome,
    o2: TickOutcome,
)
    requires
        s0.wf(),
        !s0.stopped,
        s0.idle_start is None,
        i1.valid(s0.interval_minutes),
        i2.valid(s0.interval_minutes),
        classified_idle(i1),
        !classified_idle(i2),
        (i1.now as int) % (s0.interval_minutes * 60) == 0,
        i2.now == i1.now + s0.interval_minutes * 60,
        tick_outcome_ok(s0, i1, o1),
        tick_outcome_ok(spec_handle_tick(s0, i1), i2, o2),
    ensures
        o1.away_entry matches Some(e) && away_entry_matches(
            e,
            i1.now - s0.interval_minutes * 60,
            s0.interval_minutes as int,
        ),
        o2.away_entry is None,
        o1.return_from_away is None,
        o2.return_from_away matches Some(sp) && sp.away_start == i1.now - s0.interval_minutes
            * 60 && sp.away_end == i1.now,
        o2.prompt_timestamp == Some(i1.now),
{
    let d = s0.interval_minutes * 60;
    lemma_align_down_of_multiple(i1.now as int, d);
    lemma_next_boundary(i1.now as int, d);
    lemma_align_down_of_multiple(i2.now as int, d);
}

/// Reconfiguring replaces the interval at once: the command answers with a
/// re-arm request for the new length — cancelling the boundary armed for
/// the old one — the away state is preserved, and the next tick already
/// reports on the new interval's boundary.
pub proof fn lemma_reconfigure_realigns(
    s0: Scheduler,
    n: u64,
    i: TickInput,
    oc: CommandOutcome,
    ot: TickOutcome,
)
    requires
        s0.wf(),
        !s0.stopped,
        1 <= n <= MAX_INTERVAL_MINUTES,
        command_outcome_ok(s0, TimerCommand::UpdateInterval(n), oc),
        i.valid(n),
        tick_outcome_ok(spec_handle_command(s0, TimerCommand::UpdateInterval(n)), i, ot),
    ensures
        oc.rearm_interval_minutes == Some(n),
        !oc.exit,
        spec_handle_command(s0, TimerCommand::UpdateInterval(n)).interval_minutes == n,
        spec_handle_command(s0, TimerCommand::UpdateInterval(n)).idle_start == s0.idle_start,
        !spec_handle_command(s0, TimerCommand::UpdateInterval(n)).stopped,
        !classified_idle(i) ==> ot.prompt_timestamp == Some(
            report_start(i.now as int, n) as i64,
        ),
        classified_idle(i) ==> (ot.away_entry matches Some(e) && away_entry_matches(
            e,
            report_start(i.now as int, n),
            n as int,
        )),
{
}

/// Stop is terminal: once a scheduler has processed `Stop`, every later
/// tick and every later command leaves it unchanged and asks for nothing,
/// however many are still enqueued.
pub proof fn lemma_stop_terminal(
    s0: Scheduler,
    i: TickInput,
    cmd: TimerCommand,
    ot: TickOutcome,
    oc: CommandOutcome,
)
    requires
        tick_outcome_ok(spec_handle_command(s0, TimerCommand::Stop), i, ot),
        command_outcome_ok(spec_handle_command(s0, TimerCommand::Stop), cmd, oc),
    ensures
        spec_handle_command(s0, TimerCommand::Stop).stopped,
        spec_handle_tick(spec_handle_command(s0, TimerCommand::Stop), i)
            == spec_handle_command(s0, TimerCommand::Stop),
        spec_handle_command(spec_handle_command(s0, TimerCommand::Stop), cmd)
            == spec_handle_command(s0, TimerCommand::Stop),
        empty_tick_outcome(ot),
        oc.rearm_interval_minutes is None,
        !oc.exit,
{
}

} // verus!
