//! The timer state machine: per-second accumulation of active and idle time,
//! threshold crossing for overdue breaks, and point-in-time status snapshots.

use vstd::prelude::*;

verus! {

/// How the timer reacts to the world. `Suspended` freezes all accumulation;
/// `Normal` and `Quiet` are behaviourally identical at this layer (`Quiet` is
/// a hint for the notification surface, threaded through unchanged).
#[derive(Clone, Copy, Debug, PartialEq, Eq, Structural)]
pub enum OperationMode {
    Normal,
    Quiet,
    Suspended,
}

/// Configuration snapshot, immutable per tick and replaced wholesale on a
/// settings update. Intervals are seconds of active time before a break is
/// due; durations are seconds of idle required to satisfy it.
#[derive(Clone, Copy, Debug, PartialEq, Eq, Structural)]
pub struct BreakConfig {
    pub microbreak_interval: u64,
    pub microbreak_duration: u64,
    pub microbreak_enabled: bool,

    pub rest_interval: u64,
    pub rest_duration: u64,
    pub rest_enabled: bool,

    pub daily_limit: u64,
    pub daily_enabled: bool,

    pub warning_duration: u64,
    pub mode: OperationMode,
}

/// The configuration `BreakConfig::default` returns: three-minute micro-break
/// cycles with 30 s pauses, 45-minute rest cycles with 10-minute pauses, an
/// eight-hour daily limit, `Normal` mode.
pub open spec fn default_config() -> BreakConfig {
    BreakConfig {
        microbreak_interval: 180,
        microbreak_duration: 30,
        microbreak_enabled: true,
        rest_interval: 2700,
        rest_duration: 600,
        rest_enabled: true,
        daily_limit: 28800,
        daily_enabled: true,
        warning_duration: 30,
        mode: OperationMode::Normal,
    }
}

impl Default for BreakConfig {
    fn default() -> (c: Self)
        ensures
            c == default_config(),
    {
        BreakConfig {
            microbreak_interval: 180,
            microbreak_duration: 30,
            microbreak_enabled: true,
            rest_interval: 2700,
            rest_duration: 600,
            rest_enabled: true,
            daily_limit: 28800,
            daily_enabled: true,
            warning_duration: 30,
            mode: OperationMode::Normal,
        }
    }
}

/// Derived snapshot of the timer, computed fresh on each query.
#[derive(Clone, Copy, Debug, PartialEq, Eq, Structural)]
pub struct TimerStatus {
    pub daily_usage: u64,
    pub daily_limit: u64,

    pub micro_active: u64,
    pub micro_target: u64,
    pub micro_is_overdue: bool,

    pub rest_active: u64,
    pub rest_target: u64,
    pub rest_is_overdue: bool,

    pub current_idle: u64,

    pub mode: OperationMode,
}

/// The timer state machine. `daily_usage` is cumulative active seconds since
/// the service was created: the core never resets it, not even on a
/// calendar-day rollover — per-day totals live in the statistics ledger,
/// which the driver refreshes against this counter once per tick.
/// `micro_active` and `rest_active` count active seconds
/// since the respective break was last satisfied; `current_idle` counts
/// consecutive idle seconds and resets to zero on any active tick. All four
/// counters saturate at `u64::MAX` instead of wrapping.
pub struct TimerService {
    pub config: BreakConfig,

    pub daily_usage: u64,
    pub micro_active: u64,
    pub rest_active: u64,

    pub current_idle: u64,
}

/// `x + 1`, clamped at the largest representable value.
pub open spec fn sat_inc(x: u64) -> u64 {
    if x == u64::MAX {
        u64::MAX
    } else {
        (x + 1) as u64
    }
}

/// `x + k`, clamped at the largest representable value.
pub open spec fn sat_add_nat(x: u64, k: nat) -> u64 {
    if x + k <= u64::MAX {
        (x + k) as u64
    } else {
        u64::MAX
    }
}

impl TimerService {
    /// One discrete time-step. `Suspended` is a no-op. An idle second grows
    /// `current_idle` and, once it reaches the configured duration, clears the
    /// corresponding active accumulator; an active second resets `current_idle`
    /// and grows the usage and active accumulators that are enabled.
    pub open spec fn tick_spec(self, is_idle: bool) -> TimerService {
        if self.config.mode == OperationMode::Suspended {
            self
        } else if is_idle {
            let idle = sat_inc(self.current_idle);
            TimerService {
                current_idle: idle,
                micro_active: if self.config.microbreak_enabled
                    && idle >= self.config.microbreak_duration {
                    0u64
                } else {
                    self.micro_active
                },
                rest_active: if self.config.rest_enabled && idle >= self.config.rest_duration {
                    0u64
                } else {
                    self.rest_active
                },
                ..self
            }
        } else {
            TimerService {
                current_idle: 0u64,
                daily_usage: sat_inc(self.daily_usage),
                micro_active: if self.config.microbreak_enabled {
                    sat_inc(self.micro_active)
                } else {
                    self.micro_active
                },
                rest_active: if self.config.rest_enabled {
                    sat_inc(self.rest_active)
                } else {
                    self.rest_active
                },
                ..self
            }
        }
    }

    /// The snapshot `get_status` returns: a break is overdue exactly when its
    /// active accumulator strictly exceeds the configured interval.
    pub open spec fn status_spec(self) -> TimerStatus {
        TimerStatus {
            daily_usage: self.daily_usage,
            daily_limit: self.config.daily_limit,
            micro_active: self.micro_active,
            micro_target: self.config.microbreak_interval,
            micro_is_overdue: self.micro_active > self.config.microbreak_interval,
            rest_active: self.rest_active,
            rest_target: self.config.rest_interval,
            rest_is_overdue: self.rest_active > self.config.rest_interval,
            current_idle: self.current_idle,
            mode: self.config.mode,
        }
    }

    /// The state after `reset_microbreak`.
    pub open spec fn reset_micro_spec(self) -> TimerService {
        TimerService { micro_active: 0u64, ..self }
    }

    /// The state after `reset_rest_break`.
    pub open spec fn reset_rest_spec(self) -> TimerService {
        TimerService { rest_active: 0u64, ..self }
    }

    /// The state after `trigger_rest_break`: an immediately-overdue rest
    /// break, synthesized without waiting for natural accumulation.
    pub open spec fn trigger_rest_spec(self) -> TimerService {
        TimerService { rest_active: sat_inc(self.config.rest_interval), ..self }
    }

    pub fn new(config: BreakConfig) -> (s: Self)
        ensures
            s.config == config,
            s.daily_usage == 0,
            s.micro_active == 0,
            s.rest_active == 0,
            s.current_idle == 0,
    {
        TimerService { config, daily_usage: 0, micro_active: 0, rest_active: 0, current_idle: 0 }
    }

    /// Advance by one second of wall-clock time; `is_idle` says whether the
    /// user produced input during that second. Besides the exact transition,
    /// the contract states that no counter ever decreases except through an
    /// explicit clear: usage is monotone, the active accumulators drop only to
    /// zero on an idle tick that reached the configured duration, and
    /// `current_idle` drops only to zero on an active tick.
    pub fn tick(&mut self, is_idle: bool)
        ensures
            *final(self) == old(self).tick_spec(is_idle),
            final(self).config == old(self).config,
            final(self).daily_usage >= old(self).daily_usage,
            final(self).micro_active < old(self).micro_active ==> final(self).micro_active == 0
                && is_idle && old(self).config.microbreak_enabled && final(self).current_idle
                >= old(self).config.microbreak_duration,
            final(self).rest_active < old(self).rest_active ==> final(self).rest_active == 0
                && is_idle && old(self).config.rest_enabled && final(self).current_idle
                >= old(self).config.rest_duration,
            final(self).current_idle < old(self).current_idle ==> final(self).current_idle == 0
                && !is_idle,
            old(self).config.mode == OperationMode::Suspended ==> *final(self) == *old(self),
    {
        if self.config.mode == OperationMode::Suspended {
            return;
        }

        if is_idle {
            self.current_idle = self.current_idle.saturating_add(1);

            if self.config.microbreak_enabled && self.current_idle >= self.config.microbreak_duration {
                if self.micro_active > 0 {
                    self.micro_active = 0;
                }
            }

            if self.config.rest_enabled && self.current_idle >= self.config.rest_duration
                && self.rest_active > 0 {
                self.rest_active = 0;
            }
        } else {
            self.current_idle = 0;
            self.daily_usage = self.daily_usage.saturating_add(1);

            if self.config.microbreak_enabled {
                self.micro_active = self.micro_active.saturating_add(1);
            }
            if self.config.rest_enabled {
                self.rest_active = self.rest_active.saturating_add(1);
            }
        }
    }

    /// Atomic full replacement of the configuration; accumulators are not
    /// rescaled.
    pub fn update_config(&mut self, new_config: BreakConfig)
        ensures
            final(self).config == new_config,
            final(self).daily_usage == old(self).daily_usage,
            final(self).micro_active == old(self).micro_active,
            final(self).rest_active == old(self).rest_active,
            final(self).current_idle == old(self).current_idle,
    {
        self.config = new_config;
    }

    pub fn reset_microbreak(&mut self)
        ensures
            *final(self) == old(self).reset_micro_spec(),
            final(self).micro_active == 0,
    {
        self.micro_active = 0;
    }

    pub fn reset_rest_break(&mut self)
        ensures
            *final(self) == old(self).reset_rest_spec(),
            final(self).rest_active == 0,
    {
        self.rest_active = 0;
    }

    /// Replace only the mode field of the configuration.
    pub fn set_mode(&mut self, mode: OperationMode)
        ensures
            final(self).config == (BreakConfig { mode, ..old(self).config }),
            final(self).daily_usage == old(self).daily_usage,
            final(self).micro_active == old(self).micro_active,
            final(self).rest_active == old(self).rest_active,
            final(self).current_idle == old(self).current_idle,
    {
        self.config.mode = mode;
    }

    /// Force an immediately-overdue rest break by setting the accumulator one
    /// past the interval (clamped at `u64::MAX`).
    pub fn trigger_rest_break(&mut self)
        ensures
            *final(self) == old(self).trigger_rest_spec(),
            old(self).config.rest_interval < u64::MAX ==> final(self).rest_active == old(
                self,
            ).config.rest_interval + 1,
    {
        self.rest_active = self.config.rest_interval.saturating_add(1);
    }

    /// Reset the accumulator named by `break_type`. Only the categories
    /// `micro` and `rest` are recognized; anything else is rejected and the
    /// state left unchanged.
    pub fn reset_break(&mut self, break_type: &str) -> (r: Result<(), String>)
        ensures
            r is Ok <==> (break_type@ == "micro"@ || break_type@ == "rest"@),
            break_type@ == "micro"@ ==> *final(self) == old(self).reset_micro_spec(),
            break_type@ == "rest"@ ==> *final(self) == old(self).reset_rest_spec(),
            r is Err ==> *final(self) == *old(self),
            r matches Err(m) ==> m@ == "Invalid break type"@,
    {
        let is_micro = crate::text::str_eq(break_type, "micro");
        let is_rest = crate::text::str_eq(break_type, "rest");
        proof {
            reveal_strlit("micro");
            reveal_strlit("rest");
            assert("micro"@.len() == 5);
            assert("rest"@.len() == 4);
        }
        if is_micro {
            self.reset_microbreak();
            Ok(())
        } else if is_rest {
            self.reset_rest_break();
            Ok(())
        } else {
            Err("Invalid break type".to_owned())
        }
    }

    pub fn get_status(&self) -> (st: TimerStatus)
        ensures
            st == self.status_spec(),
    {
        TimerStatus {
            daily_usage: self.daily_usage,
            daily_limit: self.config.daily_limit,
            micro_active: self.micro_active,
            micro_target: self.config.microbreak_interval,
            micro_is_overdue: self.micro_active > self.config.microbreak_interval,
            rest_active: self.rest_active,
            rest_target: self.config.rest_interval,
            rest_is_overdue: self.rest_active > self.config.rest_interval,
            current_idle: self.current_idle,
            mode: self.config.mode,
        }
    }
}

/// The state after `k` consecutive active ticks.
pub open spec fn run_active(s: TimerService, k: nat) -> TimerService
    decreases k,
{
    if k == 0 {
        s
    } else {
        run_active(s, (k - 1) as nat).tick_spec(false)
    }
}

/// The state after `k` consecutive idle ticks.
pub open spec fn run_idle(s: TimerService, k: nat) -> TimerService
    decreases k,
{
    if k == 0 {
        s
    } else {
        run_idle(s, (k - 1) as nat).tick_spec(true)
    }
}

/// The state after one tick per element of `inputs`, oldest first.
pub open spec fn run_ticks(s: TimerService, inputs: Seq<bool>) -> TimerService
    decreases inputs.len(),
{
    if inputs.len() == 0 {
        s
    } else {
        run_ticks(s, inputs.drop_last()).tick_spec(inputs.last())
    }
}

/// Law: a run of consecutive active ticks grows each enabled accumulator by
/// exactly one per tick (clamped at `u64::MAX`), leaves disabled accumulators
/// and the configuration untouched, and holds `current_idle` at zero.
pub proof fn lemma_active_run(s: TimerService, k: nat)
    requires
        s.config.mode != OperationMode::Suspended,
    ensures
        run_active(s, k).config == s.config,
        run_active(s, k).daily_usage == sat_add_nat(s.daily_usage, k),
        s.config.microbreak_enabled ==> run_active(s, k).micro_active == sat_add_nat(
            s.micro_active,
            k,
        ),
        !s.config.microbreak_enabled ==> run_active(s, k).micro_active == s.micro_active,
        s.config.rest_enabled ==> run_active(s, k).rest_active == sat_add_nat(s.rest_active, k),
        !s.config.rest_enabled ==> run_active(s, k).rest_active == s.rest_active,
        k > 0 ==> run_active(s, k).current_idle == 0,
        k == 0 ==> run_active(s, k) == s,
    decreases k,
{
    if k > 0 {
        lemma_active_run(s, (k - 1) as nat);
    }
}

/// Law: starting from zeroed counters with both break types enabled and the
/// mode not `Suspended`, after `k <= u64::MAX` active ticks the usage and both
/// active accumulators all equal `k` and `current_idle` is zero. Since this
/// holds for every such `k`, it holds after each call of the run.
pub proof fn lemma_uniform_active_accumulation(s: TimerService, k: nat)
    requires
        s.config.mode != OperationMode::Suspended,
        s.config.microbreak_enabled,
        s.config.rest_enabled,
        s.daily_usage == 0,
        s.micro_active == 0,
        s.rest_active == 0,
        s.current_idle == 0,
        k <= u64::MAX,
    ensures
        run_active(s, k).daily_usage == k,
        run_active(s, k).micro_active == k,
        run_active(s, k).rest_active == k,
        run_active(s, k).current_idle == 0,
{
    lemma_active_run(s, k);
}

/// Law: over any tick sequence, `daily_usage` never decreases (the only
/// events that lower the other counters are the explicit clears named in
/// `tick`'s contract; `daily_usage` has no clear at all).
pub proof fn lemma_usage_monotone(s: TimerService, inputs: Seq<bool>)
    ensures
        run_ticks(s, inputs).daily_usage >= s.daily_usage,
    decreases inputs.len(),
{
    if inputs.len() > 0 {
        lemma_usage_monotone(s, inputs.drop_last());
    }
}

/// Law: clearing the micro-break accumulator is idempotent — it is zero after
/// one reset and stays zero, with nothing else changed, after a second.
pub proof fn lemma_reset_microbreak_idempotent(s: TimerService)
    ensures
        s.reset_micro_spec().micro_active == 0,
        s.reset_micro_spec().reset_micro_spec() == s.reset_micro_spec(),
{
}

/// Law: the overdue threshold is a strict inequality. With a zeroed
/// accumulator, after exactly `microbreak_interval` active ticks the
/// micro-break is not yet overdue; one more active tick makes it overdue.
pub proof fn lemma_overdue_strict_threshold(s: TimerService)
    requires
        s.config.mode != OperationMode::Suspended,
        s.config.microbreak_enabled,
        s.micro_active == 0,
        s.config.microbreak_interval < u64::MAX,
    ensures
        !run_active(s, s.config.microbreak_interval as nat).status_spec().micro_is_overdue,
        run_active(s, s.config.microbreak_interval as nat + 1).status_spec().micro_is_overdue,
{
    lemma_active_run(s, s.config.microbreak_interval as nat);
    lemma_active_run(s, s.config.microbreak_interval as nat + 1);
}

/// Law: idle time must persist for the configured duration before it clears
/// the micro-break accumulator. Starting from a fresh idle streak, `k` idle
/// ticks leave the accumulator unchanged while `k` is below
/// `microbreak_duration` and clear it to zero once `k` reaches it.
pub proof fn lemma_idle_threshold_clears_micro(s: TimerService, k: nat)
    requires
        s.config.mode != OperationMode::Suspended,
        s.config.microbreak_enabled,
        s.current_idle == 0,
        k <= u64::MAX,
    ensures
        run_idle(s, k).current_idle == k,
        k < s.config.microbreak_duration ==> run_idle(s, k).micro_active == s.micro_active,
        k >= s.config.microbreak_duration && k > 0 ==> run_idle(s, k).micro_active == 0,
        run_idle(s, k).config == s.config,
    decreases k,
{
    if k > 0 {
        lemma_idle_threshold_clears_micro(s, (k - 1) as nat);
    }
}

/// Law: while the mode is `Suspended`, any number of ticks leaves the whole
/// state — all four counters and the configuration — unchanged.
pub proof fn lemma_suspended_freezes(s: TimerService, inputs: Seq<bool>)
    requires
        s.config.mode == OperationMode::Suspended,
    ensures
        run_ticks(s, inputs) == s,
    decreases inputs.len(),
{
    if inputs.len() > 0 {
        lemma_suspended_freezes(s, inputs.drop_last());
    }
}

/// Law: triggering a rest break makes the very next status snapshot report it
/// overdue, with the accumulator at exactly `rest_interval + 1`. (At
/// `rest_interval == u64::MAX` the accumulator saturates at the interval
/// instead, and no state can be strictly above it.)
pub proof fn lemma_trigger_rest_overdue(s: TimerService)
    requires
        s.config.rest_interval < u64::MAX,
    ensures
        s.trigger_rest_spec().status_spec().rest_is_overdue,
        s.trigger_rest_spec().rest_active == s.config.rest_interval + 1,
{
}

} // verus!
