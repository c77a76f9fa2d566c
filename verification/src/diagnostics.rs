//! Bounded, opt-in runtime diagnostics hosted by the loader.
//!
//! A session is started, stopped or asked for one snapshot through the loader
//! configuration; while active it counts mod callbacks per `area/id/phase` and
//! samples on an interval until its maximum duration elapses. The host drives the
//! session with its clock (milliseconds of a monotonic clock) and performs the
//! configuration reads, the sampling and the status publication that the session
//! asks for.
use vstd::prelude::*;
use crate::text::{str_equal, concat5};

verus! {

/// At most this many distinct measurement keys are kept per session.
pub const MAX_MEASUREMENTS: usize = 1024;

/// The `modules.runtimeDiagnostics` settings of the loader configuration.
#[derive(Debug)]
pub struct DiagnosticSettings {
    pub enabled: bool,
    /// Sample until the maximum duration (`true`) or take one snapshot.
    pub continuous: bool,
    /// `intervalMilliseconds`, when it is an unsigned integer.
    pub interval_milliseconds: Option<u64>,
    /// `maximumDurationSeconds`, when it is an unsigned integer.
    pub maximum_duration_seconds: Option<u64>,
    pub only_changes: bool,
    /// `slowCallbackMilliseconds` in nanoseconds (rounded up), when it is a number.
    pub slow_callback_nanoseconds: Option<u64>,
    pub areas: Vec<String>,
    /// `requestId`, when it is an unsigned integer; each start or snapshot request
    /// raises it.
    pub request_id: Option<u64>,
}

impl DiagnosticSettings {
    /// The settings of a configuration that names none.
    pub fn defaults() -> (r: DiagnosticSettings)
        ensures
            !r.enabled,
            r.continuous,
            r.interval_milliseconds == Some(2000u64),
            r.maximum_duration_seconds == Some(120u64),
            r.only_changes,
            r.slow_callback_nanoseconds == Some(20000000u64),
            r.areas@.len() == 3,
            r.areas@[0]@ == "runtime"@ && r.areas@[1]@ == "queue"@ && r.areas@[2]@ == "mods"@,
            r.request_id == Some(0u64),
    {
        let mut areas: Vec<String> = Vec::new();
        areas.push(String::from_str("runtime"));
        areas.push(String::from_str("queue"));
        areas.push(String::from_str("mods"));
        DiagnosticSettings {
            enabled: false,
            continuous: true,
            interval_milliseconds: Some(2000),
            maximum_duration_seconds: Some(120),
            only_changes: true,
            slow_callback_nanoseconds: Some(20000000),
            areas,
            request_id: Some(0),
        }
    }
}

/// The clamp of `value` (or `default` when absent) into `low..=high`.
pub open spec fn clamped(value: Option<u64>, default: u64, low: u64, high: u64) -> u64 {
    let v = match value {
        Some(v) => v,
        None => default,
    };
    if v < low { low } else if v > high { high } else { v }
}

fn clamp_setting(value: Option<u64>, default: u64, low: u64, high: u64) -> (r: u64)
    ensures
        r == clamped(value, default, low, high),
{
    let v = match value {
        Some(v) => v,
        None => default,
    };
    if v < low { low } else if v > high { high } else { v }
}

/// Why the session is or is not running.
#[derive(Clone, Copy, PartialEq, Eq, Structural, Debug)]
pub enum SessionReason {
    Disabled,
    Active,
    Stopped,
    DurationComplete,
    SnapshotComplete,
    ProcessStopped,
}

impl SessionReason {
    pub open spec fn name(self) -> Seq<char> {
        match self {
            SessionReason::Disabled => "disabled"@,
            SessionReason::Active => "active"@,
            SessionReason::Stopped => "stopped"@,
            SessionReason::DurationComplete => "duration-complete"@,
            SessionReason::SnapshotComplete => "snapshot-complete"@,
            SessionReason::ProcessStopped => "process-stopped"@,
        }
    }

    /// The reason as the status document spells it.
    pub fn as_str(self) -> (r: &'static str)
        ensures
            r@ == self.name(),
    {
        match self {
            SessionReason::Disabled => "disabled",
            SessionReason::Active => "active",
            SessionReason::Stopped => "stopped",
            SessionReason::DurationComplete => "duration-complete",
            SessionReason::SnapshotComplete => "snapshot-complete",
            SessionReason::ProcessStopped => "process-stopped",
        }
    }
}

/// Counters of one `area/id/phase`.
#[derive(Clone, Copy, PartialEq, Eq, Structural, Debug)]
pub struct Measurement {
    pub count: u64,
    pub errors: u64,
    /// Total time, in nanoseconds.
    pub total_nanoseconds: u64,
    /// Longest call, in nanoseconds.
    pub maximum_nanoseconds: u64,
    /// Calls at or above the slow-callback threshold.
    pub slow: u64,
}

pub open spec fn saturating(a: u64, b: u64) -> u64 {
    if a + b > u64::MAX { u64::MAX } else { (a + b) as u64 }
}

/// A measurement after one more call.
pub open spec fn recorded(m: Measurement, elapsed: u64, failed: bool, slow: bool) -> Measurement {
    Measurement {
        count: saturating(m.count, 1),
        errors: saturating(m.errors, if failed { 1 } else { 0 }),
        total_nanoseconds: saturating(m.total_nanoseconds, elapsed),
        maximum_nanoseconds: if elapsed > m.maximum_nanoseconds { elapsed } else { m.maximum_nanoseconds },
        slow: saturating(m.slow, if slow { 1 } else { 0 }),
    }
}

pub open spec fn empty_measurement() -> Measurement {
    Measurement { count: 0, errors: 0, total_nanoseconds: 0, maximum_nanoseconds: 0, slow: 0 }
}

/// The position of the measurement with key `key`.
pub open spec fn measurement_index(ms: Seq<(String, Measurement)>, key: Seq<char>) -> Option<int> {
    if exists|i: int| 0 <= i < ms.len() && #[trigger] ms[i].0@ == key {
        Some(choose|i: int| 0 <= i < ms.len() && #[trigger] ms[i].0@ == key)
    } else {
        None
    }
}

/// The measurement key of a call: `area/id/phase`.
pub open spec fn measurement_key(area: Seq<char>, id: Seq<char>, phase: Seq<char>) -> Seq<char> {
    area + "/"@ + id + "/"@ + phase
}

/// A diagnostic session.
#[derive(Debug)]
pub struct Session {
    pub settings: DiagnosticSettings,
    pub active: bool,
    pub started_ms: u64,
    pub next_config_ms: u64,
    pub next_sample_ms: u64,
    pub last_error: String,
    pub reason: SessionReason,
    pub measurements: Vec<(String, Measurement)>,
    /// Unix time of the last sample, in seconds.
    pub last_sample: u64,
}

/// What applying a configuration read did, for the host to act on.
#[derive(Debug)]
pub struct ConfigOutcome {
    /// Log this rejection of the configuration (it differs from the last one).
    pub rejected: Option<String>,
    /// The session stopped: log it (the host sampled before applying).
    pub stopped: bool,
    /// A session started: log it and forget the last report.
    pub started: bool,
}

/// What a host tick does after refreshing the configuration.
#[derive(Debug, Clone, Copy, PartialEq, Eq, Structural)]
pub enum TickStep {
    /// No sample is due: nothing else happens.
    Idle,
    /// Publish the status.
    Publish,
    /// Sample the running session, then publish the status.
    SampleAndPublish,
}

/// What a completed session asks the host to persist: clear `enabled` in the loader
/// configuration if its `requestId` is still this one.
#[derive(Debug)]
pub struct Completion {
    pub reason: SessionReason,
    pub request_id: Option<u64>,
}

pub open spec fn areas_contain(areas: Seq<String>, area: Seq<char>) -> bool {
    exists|i: int| 0 <= i < areas.len() && #[trigger] areas[i]@ == area
}

impl Session {
    /// Distinct measurement keys, at most the maximum of them.
    pub open spec fn wf(&self) -> bool {
        &&& self.measurements@.len() <= MAX_MEASUREMENTS
        &&& forall|i: int, j: int| 0 <= i < j < self.measurements@.len() ==>
                #[trigger] self.measurements@[i].0@ != #[trigger] self.measurements@[j].0@
    }

    pub open spec fn limit_spec(&self) -> u64 {
        clamped(self.settings.maximum_duration_seconds, 120, 1, 3600)
    }

    pub open spec fn elapsed_seconds(&self, now_ms: u64) -> int {
        if now_ms >= self.started_ms { (now_ms - self.started_ms) / 1000 } else { 0 }
    }

    /// The area is measured at `now_ms`.
    pub open spec fn enabled_spec(&self, area: Seq<char>, now_ms: u64) -> bool {
        self.active && self.elapsed_seconds(now_ms) < self.limit_spec() && areas_contain(self.settings.areas@, area)
    }

    /// A session that is not running, with default settings.
    pub fn new(now_ms: u64) -> (r: Session)
        ensures
            r.wf(),
            !r.active,
            r.reason == SessionReason::Disabled,
            r.measurements@.len() == 0,
            r.next_config_ms == now_ms,
            r.next_sample_ms == now_ms,
    {
        Session {
            settings: DiagnosticSettings::defaults(),
            active: false,
            started_ms: now_ms,
            next_config_ms: now_ms,
            next_sample_ms: now_ms,
            last_error: String::new(),
            reason: SessionReason::Disabled,
            measurements: Vec::new(),
            last_sample: 0,
        }
    }

    /// The maximum duration in seconds, from 1 to 3600 (default 120).
    pub fn limit(&self) -> (r: u64)
        ensures
            r == self.limit_spec(),
    {
        clamp_setting(self.settings.maximum_duration_seconds, 120, 1, 3600)
    }

    /// The sampling interval in milliseconds, from 500 to 60000 (default 2000).
    pub fn interval_ms(&self) -> (r: u64)
        ensures
            r == clamped(self.settings.interval_milliseconds, 2000, 500, 60000),
    {
        clamp_setting(self.settings.interval_milliseconds, 2000, 500, 60000)
    }

    fn elapsed(&self, now_ms: u64) -> (r: u64)
        ensures
            r == self.elapsed_seconds(now_ms),
    {
        if now_ms >= self.started_ms { (now_ms - self.started_ms) / 1000 } else { 0 }
    }

    /// Whether calls in `area` are measured at `now_ms`: the session is active, its
    /// maximum duration has not elapsed, and its settings list the area.
    pub fn enabled(&self, area: &str, now_ms: u64) -> (r: bool)
        ensures
            r == self.enabled_spec(area@, now_ms),
    {
        if !self.active || self.elapsed(now_ms) >= self.limit() {
            return false;
        }
        let areas = &self.settings.areas;
        for i in 0..areas.len()
            invariant
                self.active && self.elapsed_seconds(now_ms) < self.limit_spec(),
                areas@ == self.settings.areas@,
                forall|j: int| 0 <= j < i ==> #[trigger] areas@[j]@ != area@,
        {
            if str_equal(areas[i].as_str(), area) {
                return true;
            }
        }
        false
    }

    fn find_measurement(&self, key: &str) -> (r: Option<usize>)
        requires
            self.wf(),
        ensures
            r == match measurement_index(self.measurements@, key@) { Some(i) => Some(i as usize), None => None::<usize> },
            r matches Some(i) ==> i < self.measurements@.len(),
    {
        for i in 0..self.measurements.len()
            invariant
                self.wf(),
                forall|j: int| 0 <= j < i ==> #[trigger] self.measurements@[j].0@ != key@,
        {
            if str_equal(self.measurements[i].0.as_str(), key) {
                proof {
                    let w = choose|w: int| 0 <= w < self.measurements@.len() && #[trigger] self.measurements@[w].0@ == key@;
                    if w != i {
                        if w < i {
                            assert(self.measurements@[w].0@ != self.measurements@[i as int].0@);
                        } else {
                            assert(self.measurements@[i as int].0@ != self.measurements@[w].0@);
                        }
                    }
                }
                return Some(i);
            }
        }
        None
    }

    /// The slow-callback threshold in nanoseconds: the configured one, or 20 ms.
    pub open spec fn slow_threshold(&self) -> u64 {
        match self.settings.slow_callback_nanoseconds {
            Some(t) => t,
            None => 20000000,
        }
    }

    /// Records one call of `area/id/phase` that took `elapsed` nanoseconds; the call
    /// counts as slow when it took at least the slow-callback threshold. Nothing is
    /// recorded unless the area is measured, nor for a new key once the maximum
    /// number of keys is held. Counters saturate at their maximum.
    pub fn measure(&mut self, area: &str, id: &str, phase: &str, now_ms: u64, elapsed: u64, failed: bool)
        requires
            old(self).wf(),
        ensures
            final(self).wf(),
            !old(self).enabled_spec(area@, now_ms) ==> final(self).measurements@ == old(self).measurements@,
            old(self).enabled_spec(area@, now_ms) ==> {
                let key = measurement_key(area@, id@, phase@);
                let slow = elapsed >= old(self).slow_threshold();
                match measurement_index(old(self).measurements@, key) {
                    Some(i) => final(self).measurements@ == old(self).measurements@.update(i,
                        (old(self).measurements@[i].0, recorded(old(self).measurements@[i].1, elapsed, failed, slow))),
                    None => if old(self).measurements@.len() >= MAX_MEASUREMENTS {
                        final(self).measurements@ == old(self).measurements@
                    } else {
                        final(self).measurements@.len() == old(self).measurements@.len() + 1
                            && final(self).measurements@.drop_last() == old(self).measurements@
                            && final(self).measurements@.last().0@ == key
                            && final(self).measurements@.last().1 == recorded(empty_measurement(), elapsed, failed, slow)
                    },
                }
            },
            final(self).active == old(self).active,
            final(self).reason == old(self).reason,
            final(self).settings == old(self).settings,
            final(self).started_ms == old(self).started_ms,
            final(self).next_config_ms == old(self).next_config_ms,
            final(self).next_sample_ms == old(self).next_sample_ms,
            final(self).last_sample == old(self).last_sample,
    {
        if !self.enabled(area, now_ms) {
            return;
        }
        let threshold: u64 = match self.settings.slow_callback_nanoseconds {
            Some(t) => t,
            None => 20000000,
        };
        let slow = elapsed >= threshold;
        let key = concat5(area, "/", id, "/", phase);
        match self.find_measurement(key.as_str()) {
            Some(i) => {
                let m = self.measurements[i].1;
                let updated = Measurement {
                    count: m.count.saturating_add(1),
                    errors: m.errors.saturating_add(if failed { 1 } else { 0 }),
                    total_nanoseconds: m.total_nanoseconds.saturating_add(elapsed),
                    maximum_nanoseconds: if elapsed > m.maximum_nanoseconds { elapsed } else { m.maximum_nanoseconds },
                    slow: m.slow.saturating_add(if slow { 1 } else { 0 }),
                };
                let name = self.measurements[i].0.clone();
                let ghost before = self.measurements@;
                self.measurements.set(i, (name, updated));
                proof {
                    assert forall|a: int, b: int| 0 <= a < b < self.measurements@.len() implies
                        #[trigger] self.measurements@[a].0@ != #[trigger] self.measurements@[b].0@ by {
                        assert(before[a].0@ != before[b].0@);
                    }
                }
            },
            None => {
                if self.measurements.len() >= MAX_MEASUREMENTS {
                    return;
                }
                let fresh = Measurement {
                    count: 1,
                    errors: if failed { 1 } else { 0 },
                    total_nanoseconds: elapsed,
                    maximum_nanoseconds: elapsed,
                    slow: if slow { 1 } else { 0 },
                };
                let ghost before = self.measurements@;
                self.measurements.push((key, fresh));
                proof {
                    assert(self.measurements@.drop_last() =~= before);
                    assert forall|a: int, b: int| 0 <= a < b < self.measurements@.len() implies
                        #[trigger] self.measurements@[a].0@ != #[trigger] self.measurements@[b].0@ by {
                        if b == before.len() {
                            assert(before[a].0@ != self.measurements@[b].0@);
                        } else {
                            assert(before[a].0@ != before[b].0@);
                        }
                    }
                }
            },
        }
    }

    /// The loader configuration is due to be read again.
    pub fn config_due(&self, now_ms: u64) -> (r: bool)
        ensures
            r == (now_ms >= self.next_config_ms),
    {
        now_ms >= self.next_config_ms
    }

    /// Applying `next` stops a running session; the host samples it first.
    pub fn stops_with(&self, next: &DiagnosticSettings) -> (r: bool)
        ensures
            r == (!next.enabled && self.active),
    {
        !next.enabled && self.active
    }

    /// Applies a configuration read at `now_ms` (the host reads it when it is due):
    /// a rejected configuration keeps the settings; otherwise a session starts when
    /// diagnostics become enabled or a new request arrives, and a running session
    /// stops when they are disabled.
    pub fn apply_config(&mut self, now_ms: u64, config: Result<DiagnosticSettings, String>) -> (r: ConfigOutcome)
        requires
            old(self).wf(),
            now_ms <= u64::MAX - 500,
        ensures
            final(self).wf(),
            final(self).next_config_ms == now_ms + 500,
            match config {
                Err(e) => {
                    &&& final(self).last_error@ == e@
                    &&& (r.rejected matches Some(m) ==> m@ == e@)
                    &&& (r.rejected is Some <==> e@ != old(self).last_error@)
                    &&& !r.stopped && !r.started
                    &&& final(self).active == old(self).active
                    &&& final(self).reason == old(self).reason
                    &&& final(self).settings == old(self).settings
                    &&& final(self).measurements@ == old(self).measurements@
                },
                Ok(next) => {
                    let start = next.enabled && (!old(self).settings.enabled || next.request_id != old(self).settings.request_id);
                    let stop = !next.enabled && old(self).active;
                    &&& r.rejected is None
                    &&& final(self).last_error@.len() == 0
                    &&& final(self).settings == next
                    &&& r.started == start
                    &&& r.stopped == stop
                    &&& start ==> final(self).active && final(self).reason == SessionReason::Active
                        && final(self).started_ms == now_ms && final(self).next_sample_ms == now_ms
                        && final(self).measurements@.len() == 0
                    &&& !start && stop ==> !final(self).active && final(self).reason == SessionReason::Stopped
                        && final(self).next_sample_ms == now_ms && final(self).measurements@ == old(self).measurements@
                    &&& !start && !stop ==> final(self).active == old(self).active && final(self).reason == old(self).reason
                        && final(self).measurements@ == old(self).measurements@
                },
            },
    {
        self.next_config_ms = now_ms + 500;
        match config {
            Err(error) => {
                let differs = !str_equal(error.as_str(), self.last_error.as_str());
                if differs {
                    self.last_error = error.clone();
                    ConfigOutcome { rejected: Some(error), stopped: false, started: false }
                } else {
                    ConfigOutcome { rejected: None, stopped: false, started: false }
                }
            },
            Ok(next) => {
                self.last_error = String::new();
                let start = next.enabled && (!self.settings.enabled || next.request_id != self.settings.request_id);
                let stop = !next.enabled && self.active;
                if stop {
                    self.active = false;
                    self.reason = SessionReason::Stopped;
                    self.next_sample_ms = now_ms;
                }
                self.settings = next;
                if start {
                    self.started_ms = now_ms;
                    self.next_sample_ms = now_ms;
                    self.active = true;
                    self.reason = SessionReason::Active;
                    self.measurements = Vec::new();
                }
                ConfigOutcome { rejected: None, stopped: stop, started: start }
            },
        }
    }

    /// A sample is due: its time has come, or the maximum duration of a running
    /// session has elapsed, whatever the sampling interval.
    pub fn sample_due(&self, now_ms: u64) -> (r: bool)
        ensures
            r == !(now_ms < self.next_sample_ms
                && !(self.active && self.elapsed_seconds(now_ms) >= self.limit_spec())),
    {
        !(now_ms < self.next_sample_ms && !(self.active && self.elapsed(now_ms) >= self.limit()))
    }

    /// Schedules the next sample one interval after `now_ms`.
    pub fn schedule_sample(&mut self, now_ms: u64)
        requires
            now_ms <= u64::MAX - 60000,
        ensures
            final(self).next_sample_ms == now_ms + clamped(old(self).settings.interval_milliseconds, 2000, 500, 60000),
            final(self).settings == old(self).settings,
            final(self).active == old(self).active,
            final(self).reason == old(self).reason,
            final(self).started_ms == old(self).started_ms,
            final(self).next_config_ms == old(self).next_config_ms,
            final(self).measurements@ == old(self).measurements@,
            final(self).last_sample == old(self).last_sample,
    {
        self.next_sample_ms = now_ms + self.interval_ms();
    }

    /// Notes a sample taken at Unix time `seconds`.
    pub fn record_sample(&mut self, seconds: u64)
        ensures
            final(self).last_sample == seconds,
            final(self).settings == old(self).settings,
            final(self).active == old(self).active,
            final(self).reason == old(self).reason,
            final(self).started_ms == old(self).started_ms,
            final(self).next_config_ms == old(self).next_config_ms,
            final(self).next_sample_ms == old(self).next_sample_ms,
            final(self).measurements@ == old(self).measurements@,
    {
        self.last_sample = seconds;
    }

    /// After a sample of a running session: the session completes when its maximum
    /// duration has elapsed or it was a snapshot, and asks the host to clear
    /// `enabled` for its request.
    pub fn complete_if_done(&mut self, now_ms: u64) -> (r: Option<Completion>)
        ensures
            final(self).settings == old(self).settings,
            final(self).measurements@ == old(self).measurements@,
            final(self).started_ms == old(self).started_ms,
            final(self).next_sample_ms == old(self).next_sample_ms,
            final(self).next_config_ms == old(self).next_config_ms,
            final(self).last_sample == old(self).last_sample,
            !old(self).active ==> r is None && final(self).active == old(self).active && final(self).reason == old(self).reason,
            old(self).active ==> {
                let done = old(self).elapsed_seconds(now_ms) >= old(self).limit_spec() || !old(self).settings.continuous;
                let reason = if old(self).settings.continuous { SessionReason::DurationComplete } else { SessionReason::SnapshotComplete };
                &&& done ==> !final(self).active && final(self).reason == reason
                    && (r matches Some(c) && c.reason == reason && c.request_id == old(self).settings.request_id)
                &&& !done ==> r is None && final(self).active && final(self).reason == old(self).reason
            },
    {
        if !self.active {
            return None;
        }
        if self.elapsed(now_ms) >= self.limit() || !self.settings.continuous {
            self.active = false;
            self.reason = if self.settings.continuous { SessionReason::DurationComplete } else { SessionReason::SnapshotComplete };
            Some(Completion { reason: self.reason, request_id: self.settings.request_id })
        } else {
            None
        }
    }

    /// A sample is due at `now_ms`.
    pub open spec fn sample_due_spec(&self, now_ms: u64) -> bool {
        !(now_ms < self.next_sample_ms && !(self.active && self.elapsed_seconds(now_ms) >= self.limit_spec()))
    }

    /// The step of a host tick that follows the configuration refresh: when no sample
    /// is due nothing happens; otherwise the next sample is scheduled, and a running
    /// session is sampled (then `complete_if_done`) before the status is published.
    pub fn tick_step(&mut self, now_ms: u64) -> (r: TickStep)
        requires
            now_ms <= u64::MAX - 60000,
        ensures
            !old(self).sample_due_spec(now_ms) ==> r == TickStep::Idle && *final(self) == *old(self),
            old(self).sample_due_spec(now_ms) ==> {
                &&& r == if old(self).active { TickStep::SampleAndPublish } else { TickStep::Publish }
                &&& final(self).next_sample_ms == now_ms + clamped(old(self).settings.interval_milliseconds, 2000, 500, 60000)
                &&& final(self).settings == old(self).settings
                &&& final(self).active == old(self).active
                &&& final(self).reason == old(self).reason
                &&& final(self).started_ms == old(self).started_ms
                &&& final(self).next_config_ms == old(self).next_config_ms
                &&& final(self).measurements@ == old(self).measurements@
                &&& final(self).last_sample == old(self).last_sample
            },
    {
        if !self.sample_due(now_ms) {
            return TickStep::Idle;
        }
        self.schedule_sample(now_ms);
        if self.active { TickStep::SampleAndPublish } else { TickStep::Publish }
    }

    /// The process is stopping; the host samples a running session first.
    pub fn shut_down(&mut self)
        ensures
            !final(self).active,
            final(self).reason == SessionReason::ProcessStopped,
            final(self).measurements@ == old(self).measurements@,
    {
        self.active = false;
        self.reason = SessionReason::ProcessStopped;
    }

    /// The seconds left in a running session, as the status reports them.
    pub fn remaining_seconds(&self, now_ms: u64) -> (r: u64)
        ensures
            r == if self.active {
                if self.limit_spec() >= self.elapsed_seconds(now_ms) { (self.limit_spec() - self.elapsed_seconds(now_ms)) as u64 } else { 0 }
            } else {
                0
            },
    {
        if self.active {
            let limit = self.limit();
            let elapsed = self.elapsed(now_ms);
            if limit >= elapsed { limit - elapsed } else { 0 }
        } else {
            0
        }
    }
}

/// The diagnostic actions that a user may request.
pub open spec fn valid_action(action: Seq<char>) -> bool {
    action == "start"@ || action == "stop"@ || action == "snapshot"@
}

/// The `runtimeDiagnostics` fields that a request changes.
#[derive(Debug)]
pub struct RequestFields {
    pub enabled: bool,
    pub continuous: Option<bool>,
    pub request_id: Option<u64>,
}

/// The change that a request makes to the settings: `stop` disables diagnostics;
/// `start` and `snapshot` enable them, continuously or for one snapshot, under a
/// new request id (the current one, or 0, plus one, saturating).
pub fn request(action: &str, current_request_id: Option<u64>) -> (r: Result<RequestFields, String>)
    ensures
        !valid_action(action@) <==> r is Err,
        r matches Err(m) ==> m@ == "invalid diagnostic action"@,
        r matches Ok(f) ==> {
            &&& f.enabled == (action@ != "stop"@)
            &&& action@ == "stop"@ ==> f.continuous is None && f.request_id is None
            &&& action@ != "stop"@ ==> f.continuous == Some(action@ == "start"@)
                && f.request_id == Some(saturating(match current_request_id { Some(v) => v, None => 0 }, 1))
        },
{
    let start = str_equal(action, "start");
    let stop = str_equal(action, "stop");
    let snapshot = str_equal(action, "snapshot");
    if !start && !stop && !snapshot {
        return Err(String::from_str("invalid diagnostic action"));
    }
    if stop {
        return Ok(RequestFields { enabled: false, continuous: None, request_id: None });
    }
    let current = match current_request_id {
        Some(v) => v,
        None => 0,
    };
    Ok(RequestFields { enabled: true, continuous: Some(start), request_id: Some(current.saturating_add(1)) })
}

/// A published status is fresh when it was updated at most 65 seconds before `now`
/// (Unix seconds), and not in the future.
pub fn status_fresh(updated_at: Option<u64>, now: u64) -> (r: bool)
    ensures
        r == (updated_at matches Some(t) && t <= now && now - t <= 65),
{
    match updated_at {
        Some(t) => t <= now && now - t <= 65,
        None => false,
    }
}

} // verus!
