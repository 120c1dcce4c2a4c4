//! The statistics ledger: one entry of break-taking counters per calendar
//! day, keyed by a `YYYY-MM-DD` date string, with a newest-first query over
//! the most recent days.

use crate::text::{lemma_lex_le_trans, lemma_lex_total, lex_le, lex_lt, str_eq, str_lt};
use vstd::prelude::*;

verus! {

/// `x + 1`, clamped at the largest representable value.
pub open spec fn sat_inc32(x: u32) -> u32 {
    if x == u32::MAX {
        u32::MAX
    } else {
        (x + 1) as u32
    }
}

/// Counters for one calendar day, split by break category (micro / rest /
/// daily limit) and event kind.
pub struct DailyStats {
    /// Date key in fixed-width `YYYY-MM-DD` form, local calendar.
    pub date: String,
    pub total_usage_seconds: u64,

    pub micro_prompts: u32,
    pub micro_repeated_prompts: u32,
    pub micro_prompted_taken: u32,
    pub micro_natural_taken: u32,
    pub micro_skipped: u32,
    pub micro_postponed: u32,

    pub rest_prompts: u32,
    pub rest_repeated_prompts: u32,
    pub rest_prompted_taken: u32,
    pub rest_natural_taken: u32,
    pub rest_skipped: u32,
    pub rest_postponed: u32,

    pub daily_prompts: u32,
    pub daily_repeated_prompts: u32,
    pub daily_prompted_taken: u32,
    pub daily_natural_taken: u32,
    pub daily_skipped: u32,
    pub daily_postponed: u32,

    pub overdue_seconds: u64,
}

impl DailyStats {
    /// Every counter is zero (the date key is not constrained).
    pub open spec fn counters_zero(self) -> bool {
        &&& self.total_usage_seconds == 0
        &&& self.micro_prompts == 0
        &&& self.micro_repeated_prompts == 0
        &&& self.micro_prompted_taken == 0
        &&& self.micro_natural_taken == 0
        &&& self.micro_skipped == 0
        &&& self.micro_postponed == 0
        &&& self.rest_prompts == 0
        &&& self.rest_repeated_prompts == 0
        &&& self.rest_prompted_taken == 0
        &&& self.rest_natural_taken == 0
        &&& self.rest_skipped == 0
        &&& self.rest_postponed == 0
        &&& self.daily_prompts == 0
        &&& self.daily_repeated_prompts == 0
        &&& self.daily_prompted_taken == 0
        &&& self.daily_natural_taken == 0
        &&& self.daily_skipped == 0
        &&& self.daily_postponed == 0
        &&& self.overdue_seconds == 0
    }

    /// A zeroed entry for the given date key.
    pub fn new(date: String) -> (s: Self)
        ensures
            s.date == date,
            s.counters_zero(),
    {
        DailyStats {
            date,
            total_usage_seconds: 0,
            micro_prompts: 0,
            micro_repeated_prompts: 0,
            micro_prompted_taken: 0,
            micro_natural_taken: 0,
            micro_skipped: 0,
            micro_postponed: 0,
            rest_prompts: 0,
            rest_repeated_prompts: 0,
            rest_prompted_taken: 0,
            rest_natural_taken: 0,
            rest_skipped: 0,
            rest_postponed: 0,
            daily_prompts: 0,
            daily_repeated_prompts: 0,
            daily_prompted_taken: 0,
            daily_natural_taken: 0,
            daily_skipped: 0,
            daily_postponed: 0,
            overdue_seconds: 0,
        }
    }
}

impl Clone for DailyStats {
    fn clone(&self) -> (r: Self)
        ensures
            r == *self,
    {
        DailyStats {
            date: self.date.clone(),
            total_usage_seconds: self.total_usage_seconds,
            micro_prompts: self.micro_prompts,
            micro_repeated_prompts: self.micro_repeated_prompts,
            micro_prompted_taken: self.micro_prompted_taken,
            micro_natural_taken: self.micro_natural_taken,
            micro_skipped: self.micro_skipped,
            micro_postponed: self.micro_postponed,
            rest_prompts: self.rest_prompts,
            rest_repeated_prompts: self.rest_repeated_prompts,
            rest_prompted_taken: self.rest_prompted_taken,
            rest_natural_taken: self.rest_natural_taken,
            rest_skipped: self.rest_skipped,
            rest_postponed: self.rest_postponed,
            daily_prompts: self.daily_prompts,
            daily_repeated_prompts: self.daily_repeated_prompts,
            daily_prompted_taken: self.daily_prompted_taken,
            daily_natural_taken: self.daily_natural_taken,
            daily_skipped: self.daily_skipped,
            daily_postponed: self.daily_postponed,
            overdue_seconds: self.overdue_seconds,
        }
    }
}

/// Relies on `chrono::Local::now` and `chrono::DateTime::format` with the
/// `%Y-%m-%d` pattern: today's local calendar date as `YYYY-MM-DD`. The value
/// depends on the system clock and time zone, so the contract promises
/// nothing about it; callers state what holds whatever date came back.
#[verifier::external_body]
fn today_date() -> String {
    chrono::Local::now().format("%Y-%m-%d").to_string()
}

impl Default for DailyStats {
    /// A zeroed entry keyed by today's local calendar date.
    fn default() -> (s: Self)
        ensures
            s.counters_zero(),
    {
        DailyStats::new(today_date())
    }
}

/// `s` holds an entry whose date key reads `date`.
pub open spec fn has_date(s: Seq<DailyStats>, date: Seq<char>) -> bool {
    exists|i: int| 0 <= i < s.len() && (#[trigger] s[i]).date@ == date
}

/// Entry `s` with `micro_prompted_taken` bumped by one, saturating.
pub open spec fn inc_micro_taken(s: DailyStats) -> DailyStats {
    DailyStats { micro_prompted_taken: sat_inc32(s.micro_prompted_taken), ..s }
}

/// Entry `s` with `rest_prompted_taken` bumped by one, saturating.
pub open spec fn inc_rest_taken(s: DailyStats) -> DailyStats {
    DailyStats { rest_prompted_taken: sat_inc32(s.rest_prompted_taken), ..s }
}

/// Entry `s` with `micro_postponed` bumped by one, saturating.
pub open spec fn inc_micro_postponed(s: DailyStats) -> DailyStats {
    DailyStats { micro_postponed: sat_inc32(s.micro_postponed), ..s }
}

/// Entry `s` with `rest_postponed` bumped by one, saturating.
pub open spec fn inc_rest_postponed(s: DailyStats) -> DailyStats {
    DailyStats { rest_postponed: sat_inc32(s.rest_postponed), ..s }
}

/// Entry `s` with `total_usage_seconds` replaced by `usage`.
pub open spec fn with_usage(s: DailyStats, usage: u64) -> DailyStats {
    DailyStats { total_usage_seconds: usage, ..s }
}

/// The ledger after an update of the entry for `date`: if an entry with that
/// key existed it was replaced by `bump` of itself, otherwise `bump` of a
/// zeroed entry for that date was appended; no other entry changed.
pub open spec fn ledger_updated(
    pre: Seq<DailyStats>,
    post: Seq<DailyStats>,
    date: Seq<char>,
    bump: spec_fn(DailyStats) -> DailyStats,
) -> bool {
    if has_date(pre, date) {
        exists|i: int|
            0 <= i < pre.len() && (#[trigger] pre[i]).date@ == date && post == pre.update(
                i,
                bump(pre[i]),
            )
    } else {
        exists|e: DailyStats|
            (#[trigger] e.date@) == date && e.counters_zero() && post == pre.push(bump(e))
    }
}

/// `ledger_updated` with the micro-taken counter bump.
pub open spec fn micro_taken_recorded(
    pre: Seq<DailyStats>,
    post: Seq<DailyStats>,
    date: Seq<char>,
) -> bool {
    ledger_updated(pre, post, date, |s: DailyStats| inc_micro_taken(s))
}

/// `ledger_updated` with the rest-taken counter bump.
pub open spec fn rest_taken_recorded(
    pre: Seq<DailyStats>,
    post: Seq<DailyStats>,
    date: Seq<char>,
) -> bool {
    ledger_updated(pre, post, date, |s: DailyStats| inc_rest_taken(s))
}

/// `ledger_updated` with the micro-postponed counter bump.
pub open spec fn micro_postponed_recorded(
    pre: Seq<DailyStats>,
    post: Seq<DailyStats>,
    date: Seq<char>,
) -> bool {
    ledger_updated(pre, post, date, |s: DailyStats| inc_micro_postponed(s))
}

/// `ledger_updated` with the rest-postponed counter bump.
pub open spec fn rest_postponed_recorded(
    pre: Seq<DailyStats>,
    post: Seq<DailyStats>,
    date: Seq<char>,
) -> bool {
    ledger_updated(pre, post, date, |s: DailyStats| inc_rest_postponed(s))
}

/// `ledger_updated` with `total_usage_seconds` overwritten by `usage`.
pub open spec fn usage_recorded(
    pre: Seq<DailyStats>,
    post: Seq<DailyStats>,
    date: Seq<char>,
    usage: u64,
) -> bool {
    ledger_updated(pre, post, date, |s: DailyStats| with_usage(s, usage))
}

/// The statistics ledger: per-day entries with unique date keys. The order of
/// `entries` is immaterial; `get_last_n_days` imposes newest-first order at
/// query time.
pub struct StatsStore {
    pub entries: Vec<DailyStats>,
}

impl Default for StatsStore {
    /// An empty ledger.
    fn default() -> (s: Self)
        ensures
            s.entries@.len() == 0,
            s.wf(),
    {
        StatsStore { entries: Vec::new() }
    }
}

impl StatsStore {
    /// Well-formed: no two entries share a date key.
    pub open spec fn wf(self) -> bool {
        forall|i: int, j: int|
            0 <= i < j < self.entries@.len() ==> (#[trigger] self.entries@[i]).date@ != (
            #[trigger] self.entries@[j]).date@
    }

    /// After `get_or_create(date)`: `i` points at the entry for `date`; if the
    /// key already existed the store is unchanged, otherwise exactly one
    /// zeroed entry for it was appended at the end.
    pub open spec fn upsert_post(pre: StatsStore, post: StatsStore, i: int, date: Seq<char>) -> bool {
        &&& 0 <= i < post.entries@.len()
        &&& post.entries@[i].date@ == date
        &&& (has_date(pre.entries@, date) ==> post == pre)
        &&& (!has_date(pre.entries@, date) ==> {
            &&& i == pre.entries@.len()
            &&& post.entries@ == pre.entries@.push(post.entries@[i])
            &&& post.entries@[i].counters_zero()
        })
    }

    /// Index of the entry for `date`, creating a zeroed one if absent.
    pub fn get_or_create(&mut self, date: &str) -> (i: usize)
        requires
            old(self).wf(),
        ensures
            final(self).wf(),
            Self::upsert_post(*old(self), *final(self), i as int, date@),
    {
        let n = self.entries.len();
        let mut k: usize = 0;
        while k < n
            invariant
                k <= n,
                n == self.entries@.len(),
                *self == *old(self),
                self.wf(),
                forall|j: int| 0 <= j < k ==> (#[trigger] self.entries@[j]).date@ != date@,
            decreases n - k,
        {
            if str_eq(self.entries[k].date.as_str(), date) {
                return k;
            }
            k += 1;
        }
        assert(!has_date(self.entries@, date@));
        let fresh = DailyStats::new(date.to_owned());
        self.entries.push(fresh);
        n
    }

    /// Index of today's entry, creating a zeroed one on first access. Today's
    /// key comes from the system clock, so the contract binds the update to
    /// some date key rather than a particular one.
    pub fn get_or_create_today(&mut self) -> (i: usize)
        requires
            old(self).wf(),
        ensures
            final(self).wf(),
            i < final(self).entries@.len(),
            exists|d: Seq<char>| #[trigger] Self::upsert_post(*old(self), *final(self), i as int, d),
    {
        let today = today_date();
        let ghost d = today@;
        let i = self.get_or_create(today.as_str());
        proof {
            assert(Self::upsert_post(*old(self), *self, i as int, d));
        }
        i
    }

    /// Record a prompted break as taken for `date`. Only the categories
    /// `micro` and `rest` are recognized; anything else is rejected and the
    /// ledger is left unchanged.
    pub fn record_break_taken_on(&mut self, date: &str, break_type: &str) -> (r: Result<(), String>)
        requires
            old(self).wf(),
        ensures
            final(self).wf(),
            r is Ok <==> (break_type@ == "micro"@ || break_type@ == "rest"@),
            break_type@ == "micro"@ ==> micro_taken_recorded(old(self).entries@, final(self).entries@, date@),
            break_type@ == "rest"@ ==> rest_taken_recorded(old(self).entries@, final(self).entries@, date@),
            r is Err ==> *final(self) == *old(self),
            r matches Err(m) ==> m@ == "Invalid break type"@,
    {
        let is_micro = str_eq(break_type, "micro");
        let is_rest = str_eq(break_type, "rest");
        if !is_micro && !is_rest {
            return Err("Invalid break type".to_owned());
        }
        proof {
            reveal_strlit("micro");
            reveal_strlit("rest");
            assert("micro"@.len() == 5);
            assert("rest"@.len() == 4);
        }
        let ghost pre = *self;
        let i = self.get_or_create(date);
        let ghost mid = *self;
        let mut e = self.entries[i].clone();
        if is_micro {
            e.micro_prompted_taken = e.micro_prompted_taken.saturating_add(1);
            assert(e == inc_micro_taken(mid.entries@[i as int]));
        } else {
            e.rest_prompted_taken = e.rest_prompted_taken.saturating_add(1);
            assert(e == inc_rest_taken(mid.entries@[i as int]));
        }
        self.entries[i] = e;
        proof {
            if is_micro {
                lemma_bump_in_place(
                    pre,
                    mid,
                    *self,
                    i as int,
                    date@,
                    (|s: DailyStats| inc_micro_taken(s)),
                );
            } else {
                lemma_bump_in_place(
                    pre,
                    mid,
                    *self,
                    i as int,
                    date@,
                    (|s: DailyStats| inc_rest_taken(s)),
                );
            }
        }
        Ok(())
    }

    /// Record a prompted break as postponed for `date`; same category rules
    /// as `record_break_taken_on`.
    pub fn record_break_postponed_on(&mut self, date: &str, break_type: &str) -> (r: Result<
        (),
        String,
    >)
        requires
            old(self).wf(),
        ensures
            final(self).wf(),
            r is Ok <==> (break_type@ == "micro"@ || break_type@ == "rest"@),
            break_type@ == "micro"@ ==> micro_postponed_recorded(old(self).entries@, final(self).entries@, date@),
            break_type@ == "rest"@ ==> rest_postponed_recorded(old(self).entries@, final(self).entries@, date@),
            r is Err ==> *final(self) == *old(self),
            r matches Err(m) ==> m@ == "Invalid break type"@,
    {
        let is_micro = str_eq(break_type, "micro");
        let is_rest = str_eq(break_type, "rest");
        if !is_micro && !is_rest {
            return Err("Invalid break type".to_owned());
        }
        proof {
            reveal_strlit("micro");
            reveal_strlit("rest");
            assert("micro"@.len() == 5);
            assert("rest"@.len() == 4);
        }
        let ghost pre = *self;
        let i = self.get_or_create(date);
        let ghost mid = *self;
        let mut e = self.entries[i].clone();
        if is_micro {
            e.micro_postponed = e.micro_postponed.saturating_add(1);
            assert(e == inc_micro_postponed(mid.entries@[i as int]));
        } else {
            e.rest_postponed = e.rest_postponed.saturating_add(1);
            assert(e == inc_rest_postponed(mid.entries@[i as int]));
        }
        self.entries[i] = e;
        proof {
            if is_micro {
                lemma_bump_in_place(
                    pre,
                    mid,
                    *self,
                    i as int,
                    date@,
                    (|s: DailyStats| inc_micro_postponed(s)),
                );
            } else {
                lemma_bump_in_place(
                    pre,
                    mid,
                    *self,
                    i as int,
                    date@,
                    (|s: DailyStats| inc_rest_postponed(s)),
                );
            }
        }
        Ok(())
    }

    /// Record a prompted break as taken for today's entry.
    pub fn record_break_taken(&mut self, break_type: &str) -> (r: Result<(), String>)
        requires
            old(self).wf(),
        ensures
            final(self).wf(),
            r is Ok <==> (break_type@ == "micro"@ || break_type@ == "rest"@),
            break_type@ == "micro"@ ==> exists|d: Seq<char>|
                #[trigger] micro_taken_recorded(old(self).entries@, final(self).entries@, d),
            break_type@ == "rest"@ ==> exists|d: Seq<char>|
                #[trigger] rest_taken_recorded(old(self).entries@, final(self).entries@, d),
            r is Err ==> *final(self) == *old(self),
            r matches Err(m) ==> m@ == "Invalid break type"@,
    {
        let today = today_date();
        let ghost d = today@;
        let r = self.record_break_taken_on(today.as_str(), break_type);
        proof {
            if break_type@ == "micro"@ {
                assert(micro_taken_recorded(old(self).entries@, self.entries@, d));
            }
            if break_type@ == "rest"@ {
                assert(rest_taken_recorded(old(self).entries@, self.entries@, d));
            }
        }
        r
    }

    /// Record a prompted break as postponed for today's entry.
    pub fn record_break_postponed(&mut self, break_type: &str) -> (r: Result<(), String>)
        requires
            old(self).wf(),
        ensures
            final(self).wf(),
            r is Ok <==> (break_type@ == "micro"@ || break_type@ == "rest"@),
            break_type@ == "micro"@ ==> exists|d: Seq<char>|
                #[trigger] micro_postponed_recorded(old(self).entries@, final(self).entries@, d),
            break_type@ == "rest"@ ==> exists|d: Seq<char>|
                #[trigger] rest_postponed_recorded(old(self).entries@, final(self).entries@, d),
            r is Err ==> *final(self) == *old(self),
            r matches Err(m) ==> m@ == "Invalid break type"@,
    {
        let today = today_date();
        let ghost d = today@;
        let r = self.record_break_postponed_on(today.as_str(), break_type);
        proof {
            if break_type@ == "micro"@ {
                assert(micro_postponed_recorded(old(self).entries@, self.entries@, d));
            }
            if break_type@ == "rest"@ {
                assert(rest_postponed_recorded(old(self).entries@, self.entries@, d));
            }
        }
        r
    }

    /// Overwrite `total_usage_seconds` of the entry for `date` (the driver
    /// mirrors the timer's cumulative usage into the ledger once per tick).
    pub fn set_usage_on(&mut self, date: &str, usage: u64)
        requires
            old(self).wf(),
        ensures
            final(self).wf(),
            usage_recorded(old(self).entries@, final(self).entries@, date@, usage),
    {
        let ghost pre = *self;
        let i = self.get_or_create(date);
        let ghost mid = *self;
        let mut e = self.entries[i].clone();
        e.total_usage_seconds = usage;
        assert(e == with_usage(mid.entries@[i as int], usage));
        self.entries[i] = e;
        proof {
            lemma_bump_in_place(
                pre,
                mid,
                *self,
                i as int,
                date@,
                (|s: DailyStats| with_usage(s, usage)),
            );
        }
    }

    /// Overwrite `total_usage_seconds` of today's entry.
    pub fn set_today_usage(&mut self, usage: u64)
        requires
            old(self).wf(),
        ensures
            final(self).wf(),
            exists|d: Seq<char>|
                #[trigger] usage_recorded(old(self).entries@, final(self).entries@, d, usage),
    {
        let today = today_date();
        let ghost d = today@;
        self.set_usage_on(today.as_str(), usage);
        proof {
            assert(usage_recorded(old(self).entries@, self.entries@, d, usage));
        }
    }

    /// Up to `n` entries, newest date first (dates are fixed-width
    /// `YYYY-MM-DD`, so lexicographic order is calendar order). With fewer
    /// than `n` entries all of them come back; days without an entry are
    /// absent, not zero-filled.
    pub fn get_last_n_days(&self, n: usize) -> (r: Vec<DailyStats>)
        requires
            self.wf(),
        ensures
            r@.len() == if n <= self.entries@.len() {
                n as int
            } else {
                self.entries@.len() as int
            },
            forall|i: int, j: int|
                0 <= i < j < r@.len() ==> lex_lt((#[trigger] r@[j]).date@, (#[trigger] r@[i]).date@),
            forall|i: int| 0 <= i < r@.len() ==> self.entries@.contains(#[trigger] r@[i]),
            forall|j: int, i: int|
                0 <= j < self.entries@.len() && !r@.contains(#[trigger] self.entries@[j]) && 0 <= i
                    < r@.len() ==> lex_lt(self.entries@[j].date@, (#[trigger] r@[i]).date@),
    {
        // Working copy of the entries.
        let mut src: Vec<DailyStats> = Vec::new();
        let mut k: usize = 0;
        while k < self.entries.len()
            invariant
                k <= self.entries@.len(),
                src@ =~= self.entries@.take(k as int),
            decreases self.entries@.len() - k,
        {
            src.push(self.entries[k].clone());
            k += 1;
        }
        assert(src@ == self.entries@) by {
            assert(self.entries@.take(self.entries@.len() as int) =~= self.entries@);
        }

        let mut out: Vec<DailyStats> = Vec::new();
        while out.len() < n && src.len() > 0
            invariant
                out@.len() + src@.len() == self.entries@.len(),
                out@.len() <= n,
                // every element came from the store
                forall|q: int| 0 <= q < src@.len() ==> self.entries@.contains(#[trigger] src@[q]),
                forall|q: int| 0 <= q < out@.len() ==> self.entries@.contains(#[trigger] out@[q]),
                // nothing is lost: each store entry sits in out or in src
                forall|j: int|
                    0 <= j < self.entries@.len() ==> out@.contains(#[trigger] self.entries@[j])
                        || src@.contains(self.entries@[j]),
                // date keys in src are pairwise distinct
                forall|q1: int, q2: int|
                    0 <= q1 < q2 < src@.len() ==> (#[trigger] src@[q1]).date@ != (
                    #[trigger] src@[q2]).date@,
                // everything still in src is older than everything in out
                forall|q: int, p: int|
                    0 <= q < src@.len() && 0 <= p < out@.len() ==> lex_lt(
                        (#[trigger] src@[q]).date@,
                        (#[trigger] out@[p]).date@,
                    ),
                // out is strictly newest-first
                forall|i: int, j: int|
                    0 <= i < j < out@.len() ==> lex_lt(
                        (#[trigger] out@[j]).date@,
                        (#[trigger] out@[i]).date@,
                    ),
            decreases src@.len(),
        {
            // index of the newest date still in src
            let mut m: usize = 0;
            let mut t: usize = 1;
            while t < src.len()
                invariant
                    m < t <= src@.len(),
                    src@.len() > 0,
                    forall|q: int|
                        0 <= q < t ==> lex_le((#[trigger] src@[q]).date@, src@[m as int].date@),
                decreases src@.len() - t,
            {
                if str_lt(src[m].date.as_str(), src[t].date.as_str()) {
                    proof {
                        let ghost old_m = m as int;
                        assert forall|q: int|
                            0 <= q < t + 1 implies lex_le(
                            (#[trigger] src@[q]).date@,
                            src@[t as int].date@,
                        ) by {
                            if q < t {
                                lemma_lex_le_trans(
                                    src@[q].date@,
                                    src@[old_m].date@,
                                    src@[t as int].date@,
                                );
                            }
                        }
                    }
                    m = t;
                } else {
                    proof {
                        lemma_lex_total(src@[m as int].date@, src@[t as int].date@);
                    }
                }
                t += 1;
            }
            let ghost src_pre = src@;
            let ghost out_pre = out@;
            let ghost picked = src@[m as int];
            let e = src.swap_remove(m);
            proof {
                lemma_swap_remove_keeps(src_pre, src@, m as int);
            }
            out.push(e);
            proof {
                assert forall|j: int|
                    0 <= j < self.entries@.len() implies out@.contains(
                    #[trigger] self.entries@[j],
                ) || src@.contains(self.entries@[j]) by {
                    let x = self.entries@[j];
                    if out_pre.contains(x) {
                        let q = choose|q: int| 0 <= q < out_pre.len() && out_pre[q] == x;
                        assert(out@[q] == x);
                    } else {
                        assert(src_pre.contains(x));
                        if x == picked {
                            assert(out@[out@.len() - 1] == x);
                        }
                    }
                }
            }
        }
        out
    }
}

/// After `swap_remove(m)` the remaining sequence holds exactly the other
/// elements of the starting one: each survivor was present before, an element
/// other than the one at `m` that was present before is still present, and
/// when date keys were pairwise distinct they stay so, with every survivor's
/// key differing from the removed one's.
proof fn lemma_swap_remove_keeps(pre: Seq<DailyStats>, post: Seq<DailyStats>, m: int)
    requires
        0 <= m < pre.len(),
        post == pre.update(m, pre.last()).drop_last(),
    ensures
        post.len() == pre.len() - 1,
        forall|q: int| 0 <= q < post.len() ==> pre.contains(#[trigger] post[q]),
        (forall|q1: int, q2: int|
            0 <= q1 < q2 < pre.len() ==> (#[trigger] pre[q1]).date@ != (#[trigger] pre[q2]).date@)
            ==> (forall|q1: int, q2: int|
            0 <= q1 < q2 < post.len() ==> (#[trigger] post[q1]).date@ != (
            #[trigger] post[q2]).date@),
        forall|x: DailyStats| pre.contains(x) ==> post.contains(x) || x == pre[m],
        (forall|q1: int, q2: int|
            0 <= q1 < q2 < pre.len() ==> (#[trigger] pre[q1]).date@ != (#[trigger] pre[q2]).date@)
            ==> (forall|q: int|
            0 <= q < post.len() ==> (#[trigger] post[q]).date@ != pre[m].date@),
{
    assert forall|q: int| 0 <= q < post.len() implies pre.contains(#[trigger] post[q]) by {
        if q == m {
            assert(post[q] == pre[pre.len() - 1]);
        } else {
            assert(post[q] == pre[q]);
        }
    }
    assert forall|x: DailyStats| pre.contains(x) implies post.contains(x) || x == pre[m] by {
        let i = choose|i: int| 0 <= i < pre.len() && pre[i] == x;
        if i == m {
        } else if i == pre.len() - 1 {
            if m < pre.len() - 1 {
                assert(post[m] == x);
            }
        } else {
            assert(post[i] == x);
        }
    }
    if forall|q1: int, q2: int|
        0 <= q1 < q2 < pre.len() ==> (#[trigger] pre[q1]).date@ != (#[trigger] pre[q2]).date@ {
        assert forall|q1: int, q2: int|
            0 <= q1 < q2 < post.len() implies (#[trigger] post[q1]).date@ != (
        #[trigger] post[q2]).date@ by {
            let a1: int = if q1 == m {
                pre.len() - 1
            } else {
                q1
            };
            let a2: int = if q2 == m {
                pre.len() - 1
            } else {
                q2
            };
            assert(post[q1] == pre[a1]);
            assert(post[q2] == pre[a2]);
        }
        assert forall|q: int| 0 <= q < post.len() implies (#[trigger] post[q]).date@
            != pre[m].date@ by {
            let a: int = if q == m {
                pre.len() - 1
            } else {
                q
            };
            assert(post[q] == pre[a]);
        }
    }
}

/// The ledger after reading an index with `get_or_create` for `date` and
/// replacing that entry in place satisfies `ledger_updated` for the value the
/// replacement was computed from.
proof fn lemma_bump_in_place(
    pre: StatsStore,
    mid: StatsStore,
    post: StatsStore,
    i: int,
    date: Seq<char>,
    bump: spec_fn(DailyStats) -> DailyStats,
)
    requires
        pre.wf(),
        mid.wf(),
        StatsStore::upsert_post(pre, mid, i, date),
        post.entries@.len() == mid.entries@.len(),
        0 <= i < mid.entries@.len(),
        forall|j: int| 0 <= j < mid.entries@.len() && j != i ==> post.entries@[j] == mid.entries@[j],
        post.entries@[i].date@ == mid.entries@[i].date@,
        post.entries@[i] == bump(mid.entries@[i]),
    ensures
        post.wf(),
        ledger_updated(pre.entries@, post.entries@, date, bump),
{
    assert(post.entries@ =~= mid.entries@.update(i, post.entries@[i]));
    if has_date(pre.entries@, date) {
        assert(mid == pre);
        assert(pre.entries@[i].date@ == date);
        assert(post.entries@ == pre.entries@.update(i, bump(pre.entries@[i])));
    } else {
        let z = mid.entries@[i];
        assert(z.date@ == date && z.counters_zero());
        assert(post.entries@ =~= pre.entries@.push(bump(z)));
    }
}

} // verus!
