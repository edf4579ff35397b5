//! The frequency and timestamp monitors: the counting and the decisions that
//! fill their statuses.
use vstd::prelude::*;

use crate::diagnostic_status_wrapper::{
    values_view, with_summary, with_value, DiagnosticStatusWrapper, KeyValue, StatusView,
};
use crate::text::{decimal_of_int, decimal_of_nat};
use vstd::arithmetic::div_mod::{
    lemma_fundamental_div_mod, lemma_fundamental_div_mod_converse, lemma_mod_pos_bound,
};

verus! {

/// Where a measured frequency stands against the acceptable band.
pub enum FrequencyBand {
    /// Below the lowest acceptable frequency.
    TooLow,
    /// Above the highest acceptable frequency.
    TooHigh,
    /// Within the band.
    Met,
}

/// What one run measures: the events counted in the window and the window's
/// length in nanoseconds.
pub struct WindowSample {
    pub events: usize,
    pub window_ns: i64,
}

/// What a frequency monitor holds.
pub struct FrequencyView {
    pub name: Seq<char>,
    pub window_size: usize,
    pub count: usize,
    pub times: Seq<i64>,
    pub seq_nums: Seq<usize>,
    pub hist_index: usize,
}

impl FrequencyView {
    /// The ring holds one time and one count per slot of the window, the
    /// current slot is in the window (or zero for an empty window), and no
    /// recorded count exceeds the current one.
    pub open spec fn well_formed(self) -> bool {
        &&& self.times.len() == self.window_size
        &&& self.seq_nums.len() == self.window_size
        &&& if self.window_size == 0 {
            self.hist_index == 0
        } else {
            self.hist_index < self.window_size
        }
        &&& forall|i: int| 0 <= i < self.seq_nums.len() ==> #[trigger] self.seq_nums[i] <= self.count
    }

    /// Whether a run at `now_ns` can measure its window: the window has a
    /// slot and its length fits in an `i64`.
    pub open spec fn can_advance(self, now_ns: i64) -> bool {
        &&& self.window_size > 0
        &&& i64::MIN <= now_ns - self.times[self.hist_index as int] <= i64::MAX
    }

    /// The monitor right after it was cleared at `now_ns`: no events, every
    /// slot stamped `now_ns` with count zero, and the first slot current.
    pub open spec fn cleared(self, now_ns: i64) -> FrequencyView {
        FrequencyView {
            count: 0,
            times: Seq::new(self.window_size as nat, |i: int| now_ns),
            seq_nums: Seq::new(self.window_size as nat, |i: int| 0usize),
            hist_index: 0,
            ..self
        }
    }

    /// The monitor after one more event.
    pub open spec fn ticked(self) -> FrequencyView {
        FrequencyView { count: (self.count + 1) as usize, ..self }
    }

    /// What a run at `now_ns` measures: the events since the current slot
    /// was recorded, and the time since then.
    pub open spec fn sample(self, now_ns: i64) -> (int, int) {
        (
            self.count - self.seq_nums[self.hist_index as int],
            now_ns - self.times[self.hist_index as int],
        )
    }

    /// The monitor after a run at `now_ns`: the current slot records the
    /// count and the time, and the next slot becomes current.
    pub open spec fn advanced(self, now_ns: i64) -> FrequencyView {
        FrequencyView {
            times: self.times.update(self.hist_index as int, now_ns),
            seq_nums: self.seq_nums.update(self.hist_index as int, self.count),
            hist_index: ((self.hist_index + 1) % (self.window_size as int)) as usize,
            ..self
        }
    }
}

/// The monitor after `k` more events.
pub open spec fn ticked_times(v: FrequencyView, k: nat) -> FrequencyView
    decreases k,
{
    if k == 0 {
        v
    } else {
        ticked_times(v, (k - 1) as nat).ticked()
    }
}

/// Law: after a clear at `t0` and `k` events, a run at `t1` counts exactly
/// the `k` events over `t1 - t0` nanoseconds; so a run right after a clear
/// finds no event and reports ERROR.
pub proof fn lemma_cleared_window(v: FrequencyView, t0: i64, k: nat, t1: i64, band: FrequencyBand)
    requires
        v.well_formed(),
        v.window_size > 0,
        k <= usize::MAX,
    ensures
        ticked_times(v.cleared(t0), k).sample(t1) == (k as int, t1 - t0),
        k == 0 ==> frequency_summary(
            ticked_times(v.cleared(t0), k).sample(t1).0 as usize,
            band,
        ).0 == 2,
    decreases k,
{
    if k > 0 {
        lemma_cleared_window(v, t0, (k - 1) as nat, t1, band);
    }
    let c = v.cleared(t0);
    assert(ticked_times(c, k).count == k && ticked_times(c, k).hist_index == 0 && ticked_times(
        c,
        k,
    ).seq_nums == c.seq_nums && ticked_times(c, k).times == c.times) by {
        lemma_ticked_times_fields(c, k);
    }
}

/// Events change only the count: after `k` of them it has grown by `k`.
proof fn lemma_ticked_times_fields(v: FrequencyView, k: nat)
    requires
        v.count + k <= usize::MAX,
    ensures
        ticked_times(v, k).count == v.count + k,
        ticked_times(v, k).hist_index == v.hist_index,
        ticked_times(v, k).seq_nums == v.seq_nums,
        ticked_times(v, k).times == v.times,
    decreases k,
{
    if k > 0 {
        lemma_ticked_times_fields(v, (k - 1) as nat);
    }
}

/// What happens to a frequency monitor: an event, or a run at a time.
pub enum FrequencyEvent {
    Tick,
    Run(i64),
}

/// The monitor after the given happenings, in order.
pub open spec fn replay(v: FrequencyView, e: Seq<FrequencyEvent>) -> FrequencyView
    decreases e.len(),
{
    if e.len() == 0 {
        v
    } else {
        let s = replay(v, e.drop_last());
        match e.last() {
            FrequencyEvent::Tick => s.ticked(),
            FrequencyEvent::Run(t) => s.advanced(t),
        }
    }
}

/// The number of events among the happenings.
pub open spec fn tick_count(e: Seq<FrequencyEvent>) -> nat
    decreases e.len(),
{
    if e.len() == 0 {
        0
    } else {
        tick_count(e.drop_last()) + if e.last() is Tick {
            1nat
        } else {
            0nat
        }
    }
}

/// The number of runs among the happenings.
pub open spec fn run_count(e: Seq<FrequencyEvent>) -> nat
    decreases e.len(),
{
    if e.len() == 0 {
        0
    } else {
        run_count(e.drop_last()) + if e.last() is Run {
            1nat
        } else {
            0nat
        }
    }
}

/// The number of events before run number `r` (counting from zero).
pub open spec fn ticks_before_run(e: Seq<FrequencyEvent>, r: int) -> nat
    decreases e.len(),
{
    if e.len() == 0 {
        0
    } else if e.last() is Run && run_count(e.drop_last()) == r {
        tick_count(e.drop_last())
    } else {
        ticks_before_run(e.drop_last(), r)
    }
}

/// The time of run number `r` (counting from zero).
pub open spec fn time_of_run(e: Seq<FrequencyEvent>, r: int) -> i64
    decreases e.len(),
{
    if e.len() == 0 {
        0
    } else if e.last() is Run && run_count(e.drop_last()) == r {
        e.last()->Run_0
    } else {
        time_of_run(e.drop_last(), r)
    }
}

/// The last of the first `runs` runs that used slot `j` of a window of `w`
/// slots, or -1 when none did.
pub open spec fn last_writer(runs: int, w: int, j: int) -> int {
    if j < runs {
        runs - 1 - ((runs - 1 - j) % w)
    } else {
        -1
    }
}

/// How the last user of a slot changes with one more run.
proof fn lemma_slot_step(runs: int, w: int, j: int)
    requires
        w > 0,
        0 <= j < w,
        runs >= 0,
    ensures
        j == runs % w ==> last_writer(runs + 1, w, j) == runs,
        j != runs % w ==> last_writer(runs + 1, w, j) == last_writer(runs, w, j),
        runs >= w ==> last_writer(runs, w, runs % w) == runs - w,
        runs < w ==> runs % w == runs,
{
    lemma_fundamental_div_mod(runs, w);
    lemma_mod_pos_bound(runs, w);
    let q = runs / w;
    let h = runs % w;
    if runs < w {
        lemma_fundamental_div_mod_converse(runs, w, 0, runs);
    }
    if j == h {
        assert(runs - j == q * w) by (nonlinear_arith)
            requires
                runs == w * q + h,
                j == h,
        ;
        lemma_fundamental_div_mod_converse(runs - j, w, q, 0);
    } else if j < runs {
        let a = runs - 1 - j;
        lemma_fundamental_div_mod(a, w);
        lemma_mod_pos_bound(a, w);
        let qa = a / w;
        let ra = a % w;
        if ra == w - 1 {
            assert(runs == (qa + 1) * w + j) by (nonlinear_arith)
                requires
                    a == w * qa + ra,
                    ra == w - 1,
                    a == runs - 1 - j,
            ;
            lemma_fundamental_div_mod_converse(runs, w, qa + 1, j);
        } else {
            assert(a + 1 == qa * w + (ra + 1)) by (nonlinear_arith)
                requires
                    a == w * qa + ra,
            ;
            lemma_fundamental_div_mod_converse(a + 1, w, qa, ra + 1);
        }
    } else if j == runs {
        lemma_fundamental_div_mod_converse(runs, w, 0, runs);
    }
    if runs >= w {
        let a = runs - 1 - h;
        assert(a == (q - 1) * w + (w - 1)) by (nonlinear_arith)
            requires
                runs == w * q + h,
                a == runs - 1 - h,
        ;
        lemma_fundamental_div_mod_converse(a, w, q - 1, w - 1);
    }
}

/// The count that slot `j` records after the happenings `e`, starting from
/// a cleared monitor.
pub open spec fn slot_ticks(e: Seq<FrequencyEvent>, w: int, j: int) -> int {
    let r = last_writer(run_count(e) as int, w, j);
    if r < 0 {
        0
    } else {
        ticks_before_run(e, r) as int
    }
}

/// The time that slot `j` records after the happenings `e`, starting from a
/// monitor cleared at `t0`.
pub open spec fn slot_time(e: Seq<FrequencyEvent>, w: int, t0: i64, j: int) -> int {
    let r = last_writer(run_count(e) as int, w, j);
    if r < 0 {
        t0 as int
    } else {
        time_of_run(e, r) as int
    }
}

/// A monitor cleared at `t0` and then taken through `e` counts every event,
/// has run `run_count(e)` times round its window, and each slot records the
/// count and the time of the last run that used it.
proof fn lemma_replay_slots(v: FrequencyView, t0: i64, e: Seq<FrequencyEvent>)
    requires
        v.well_formed(),
        v.window_size > 0,
        tick_count(e) <= usize::MAX,
    ensures
        replay(v.cleared(t0), e).window_size == v.window_size,
        replay(v.cleared(t0), e).times.len() == v.window_size,
        replay(v.cleared(t0), e).seq_nums.len() == v.window_size,
        replay(v.cleared(t0), e).count == tick_count(e),
        replay(v.cleared(t0), e).hist_index == (run_count(e) as int) % (v.window_size as int),
        forall|j: int|
            0 <= j < v.window_size ==> replay(v.cleared(t0), e).seq_nums[j] == slot_ticks(
                e,
                v.window_size as int,
                j,
            ) && replay(v.cleared(t0), e).times[j] == slot_time(e, v.window_size as int, t0, j),
    decreases e.len(),
{
    let w = v.window_size as int;
    if e.len() > 0 {
        let p = e.drop_last();
        lemma_replay_slots(v, t0, p);
        let s = replay(v.cleared(t0), p);
        let n = replay(v.cleared(t0), e);
        let runs = run_count(p) as int;
        lemma_mod_pos_bound(runs, w);
        let h = runs % w;
        assert(s.hist_index == h);
        match e.last() {
            FrequencyEvent::Tick => {
                assert(n == s.ticked());
                assert(run_count(e) == run_count(p));
                assert forall|j: int| 0 <= j < w implies n.seq_nums[j] == slot_ticks(e, w, j)
                    && n.times[j] == slot_time(e, w, t0, j) by {
                    let r = last_writer(runs, w, j);
                    assert(s.seq_nums[j] == slot_ticks(p, w, j));
                    assert(s.times[j] == slot_time(p, w, t0, j));
                    assert(ticks_before_run(e, r) == ticks_before_run(p, r));
                    assert(time_of_run(e, r) == time_of_run(p, r));
                    assert(slot_ticks(e, w, j) == slot_ticks(p, w, j));
                    assert(slot_time(e, w, t0, j) == slot_time(p, w, t0, j));
                }
            },
            FrequencyEvent::Run(t) => {
                assert(n == s.advanced(t));
                assert(run_count(e) == runs + 1);
                assert(ticks_before_run(e, runs) == tick_count(p));
                assert(time_of_run(e, runs) == t);
                assert forall|j: int| 0 <= j < w implies n.seq_nums[j] == slot_ticks(e, w, j)
                    && n.times[j] == slot_time(e, w, t0, j) by {
                    lemma_slot_step(runs, w, j);
                    let r = last_writer(runs, w, j);
                    assert(s.seq_nums[j] == slot_ticks(p, w, j));
                    assert(s.times[j] == slot_time(p, w, t0, j));
                    if j == h {
                        assert(last_writer(runs + 1, w, j) == runs);
                        assert(slot_ticks(e, w, j) == tick_count(p));
                        assert(slot_time(e, w, t0, j) == t);
                    } else {
                        assert(last_writer(runs + 1, w, j) == r);
                        if r >= 0 {
                            assert(r < runs);
                            assert(ticks_before_run(e, r) == ticks_before_run(p, r));
                            assert(time_of_run(e, r) == time_of_run(p, r));
                        }
                        assert(slot_ticks(e, w, j) == slot_ticks(p, w, j));
                        assert(slot_time(e, w, t0, j) == slot_time(p, w, t0, j));
                    }
                }
                assert((runs + 1) % w == (h + 1) % w) by {
                    lemma_fundamental_div_mod(runs, w);
                    let q = runs / w;
                    if h + 1 < w {
                        assert(runs + 1 == q * w + (h + 1)) by (nonlinear_arith)
                            requires
                                runs == w * q + h,
                        ;
                        lemma_fundamental_div_mod_converse(runs + 1, w, q, h + 1);
                        lemma_fundamental_div_mod_converse(h + 1, w, 0, h + 1);
                    } else {
                        assert(runs + 1 == (q + 1) * w + 0) by (nonlinear_arith)
                            requires
                                runs == w * q + h,
                                h + 1 == w,
                        ;
                        lemma_fundamental_div_mod_converse(runs + 1, w, q + 1, 0);
                        lemma_fundamental_div_mod_converse(h + 1, w, 1, 0);
                    }
                }
            },
        }
    } else {
        assert forall|j: int| 0 <= j < w implies replay(v.cleared(t0), e).seq_nums[j]
            == slot_ticks(e, w, j) && replay(v.cleared(t0), e).times[j] == slot_time(
            e,
            w,
            t0,
            j,
        ) by {}
        lemma_fundamental_div_mod_converse(0, w, 0, 0);
    }
}

/// Law: the window spans the last `window_size` runs. After a clear at `t0`,
/// a run counts the events since the run `window_size` runs before it, and
/// measures the time since that run; while fewer runs have been made, it
/// counts from the clear.
pub proof fn lemma_window_spans_last_runs(
    v: FrequencyView,
    t0: i64,
    e: Seq<FrequencyEvent>,
    now_ns: i64,
)
    requires
        v.well_formed(),
        v.window_size > 0,
        tick_count(e) <= usize::MAX,
    ensures
        replay(v.cleared(t0), e).sample(now_ns).0 == tick_count(e) - if run_count(e)
            >= v.window_size {
            ticks_before_run(e, run_count(e) - v.window_size) as int
        } else {
            0
        },
        replay(v.cleared(t0), e).sample(now_ns).1 == now_ns - if run_count(e) >= v.window_size {
            time_of_run(e, run_count(e) - v.window_size) as int
        } else {
            t0 as int
        },
{
    let w = v.window_size as int;
    let runs = run_count(e) as int;
    lemma_replay_slots(v, t0, e);
    lemma_slot_step(runs, w, 0);
    lemma_mod_pos_bound(runs, w);
    let h = runs % w;
    assert(replay(v.cleared(t0), e).seq_nums[h] == slot_ticks(e, w, h));
    if runs >= w {
        lemma_slot_step(runs, w, h);
    } else {
        assert(last_writer(runs, w, h) == -1);
    }
}

/// Law: whatever events and runs happen, and in whatever order, the ring
/// stays well formed: the current slot is in the window and no recorded
/// count exceeds the current one, so a run never indexes out of the window
/// nor counts a negative number of events.
pub proof fn lemma_replay_well_formed(v: FrequencyView, e: Seq<FrequencyEvent>)
    requires
        v.well_formed(),
        v.window_size > 0,
        v.count + tick_count(e) <= usize::MAX,
    ensures
        replay(v, e).well_formed(),
        replay(v, e).window_size == v.window_size,
        replay(v, e).count == v.count + tick_count(e),
        replay(v, e).hist_index < v.window_size,
        replay(v, e).sample(0).0 >= 0,
    decreases e.len(),
{
    if e.len() > 0 {
        let p = e.drop_last();
        lemma_replay_well_formed(v, p);
        let s = replay(v, p);
        match e.last() {
            FrequencyEvent::Tick => {
                assert(replay(v, e) == s.ticked());
                let n = s.ticked();
                assert forall|i: int| 0 <= i < n.seq_nums.len() implies #[trigger] n.seq_nums[i]
                    <= n.count by {
                    assert(s.seq_nums[i] <= s.count);
                }
            },
            FrequencyEvent::Run(t) => {
                assert(replay(v, e) == s.advanced(t));
                let n = s.advanced(t);
                lemma_mod_pos_bound(s.hist_index + 1, v.window_size as int);
                assert forall|i: int| 0 <= i < n.seq_nums.len() implies #[trigger] n.seq_nums[i]
                    <= n.count by {
                    if i != s.hist_index {
                        assert(s.seq_nums[i] <= s.count);
                    }
                }
            },
        }
    }
    let r = replay(v, e);
    assert(r.seq_nums[r.hist_index as int] <= r.count);
}

/// Law: with clock readings that are not negative, a monitor with a slot
/// can always measure its window.
pub proof fn lemma_can_advance_with_clock_readings(v: FrequencyView, now_ns: i64)
    requires
        v.well_formed(),
        v.window_size > 0,
        now_ns >= 0,
        forall|i: int| 0 <= i < v.times.len() ==> #[trigger] v.times[i] >= 0,
    ensures
        v.can_advance(now_ns),
{
    assert(v.times[v.hist_index as int] >= 0);
}

/// The level and message of a frequency status: ERROR when no event came in
/// the window, else WARN when the frequency is out of the band, else OK.
pub open spec fn frequency_summary(events: usize, band: FrequencyBand) -> (u8, Seq<char>) {
    if events == 0 {
        (2u8, "No events recorded."@)
    } else {
        match band {
            FrequencyBand::TooLow => (1u8, "Frequency too low."@),
            FrequencyBand::TooHigh => (1u8, "Frequency too high."@),
            FrequencyBand::Met => (0u8, "Desired frequency met"@),
        }
    }
}

/// Law: a frequency report keeps the values already in the status and
/// appends, in order, the events measured in the window, the events since
/// the start, the window's length, the frequency's text and the limits; its
/// level is ERROR without events, else WARN for a frequency out of the band
/// and OK within it; it keeps the status's name and hardware id.
pub proof fn lemma_frequency_report_values(
    s: StatusView,
    count: usize,
    sample: WindowSample,
    band: FrequencyBand,
    freq_text: Seq<char>,
    limits: Seq<(Seq<char>, Seq<char>)>,
)
    ensures
        ({
            let r = frequency_report(s, count, sample, band, freq_text, limits);
            let n = s.values.len() as int;
            &&& r.values.len() == n + 4 + limits.len()
            &&& r.values.take(n) == s.values
            &&& r.values[n] == ("Events in window"@, decimal_of_nat(sample.events as nat))
            &&& r.values[n + 1] == ("Events since startup"@, decimal_of_nat(count as nat))
            &&& r.values[n + 2] == ("Duration of window (s)"@, decimal_of_int(
                sample.window_ns as int,
            ))
            &&& r.values[n + 3] == ("Actual frequency (Hz)"@, freq_text)
            &&& forall|k: int| 0 <= k < limits.len() ==> #[trigger] r.values[n + 4 + k] == limits[k]
            &&& r.name == s.name
            &&& r.hardware_id == s.hardware_id
            &&& r.level == if sample.events == 0 {
                2u8
            } else if band is Met {
                0u8
            } else {
                1u8
            }
            &&& r.message == if sample.events == 0 {
                "No events recorded."@
            } else if band is TooLow {
                "Frequency too low."@
            } else if band is TooHigh {
                "Frequency too high."@
            } else {
                "Desired frequency met"@
            }
        }),
{
    let r = frequency_report(s, count, sample, band, freq_text, limits);
    let n = s.values.len() as int;
    assert(r.values.take(n) =~= s.values);
    assert forall|k: int| 0 <= k < limits.len() implies #[trigger] r.values[n + 4 + k]
        == limits[k] by {}
}

/// The status a frequency run reports.
pub open spec fn frequency_report(
    s: StatusView,
    count: usize,
    sample: WindowSample,
    band: FrequencyBand,
    freq_text: Seq<char>,
    limits: Seq<(Seq<char>, Seq<char>)>,
) -> StatusView {
    let summarized = with_summary(
        s,
        frequency_summary(sample.events, band).0,
        frequency_summary(sample.events, band).1,
    );
    let v1 = with_value(summarized, "Events in window"@, decimal_of_nat(sample.events as nat));
    let v2 = with_value(v1, "Events since startup"@, decimal_of_nat(count as nat));
    let v3 = with_value(v2, "Duration of window (s)"@, decimal_of_int(sample.window_ns as int));
    let v4 = with_value(v3, "Actual frequency (Hz)"@, freq_text);
    StatusView { values: v4.values + limits, ..v4 }
}

/// A monitor of the frequency of events: a count of events, and a ring of
/// the times and counts of the last runs, one per slot of the window.
pub struct FrequencyStatus {
    name: String,
    window_size: usize,
    count: usize,
    times: Vec<i64>,
    seq_nums: Vec<usize>,
    hist_index: usize,
}

impl View for FrequencyStatus {
    type V = FrequencyView;

    closed spec fn view(&self) -> FrequencyView {
        FrequencyView {
            name: self.name@,
            window_size: self.window_size,
            count: self.count,
            times: self.times@,
            seq_nums: self.seq_nums@,
            hist_index: self.hist_index,
        }
    }
}

impl FrequencyStatus {
    /// A monitor named "Frequency Status" with `window_size` slots, started
    /// at `now_ns`.
    pub fn new(window_size: usize, now_ns: i64) -> (f: Self)
        ensures
            f@.well_formed(),
            f@ == (FrequencyView {
                name: "Frequency Status"@,
                window_size: window_size,
                count: 0,
                times: Seq::new(window_size as nat, |i: int| now_ns),
                seq_nums: Seq::new(window_size as nat, |i: int| 0usize),
                hist_index: 0,
            }),
    {
        proof { reveal_strlit("Frequency Status"); }
        Self::with_name(window_size, "Frequency Status", now_ns)
    }

    /// A monitor with the given name and `window_size` slots, started at
    /// `now_ns`.
    pub fn with_name(window_size: usize, name: &str, now_ns: i64) -> (f: Self)
        ensures
            f@.well_formed(),
            f@ == (FrequencyView {
                name: name@,
                window_size: window_size,
                count: 0,
                times: Seq::new(window_size as nat, |i: int| now_ns),
                seq_nums: Seq::new(window_size as nat, |i: int| 0usize),
                hist_index: 0,
            }),
    {
        let mut times: Vec<i64> = Vec::new();
        let mut seq_nums: Vec<usize> = Vec::new();
        for i in 0..window_size
            invariant
                times@ == Seq::new(i as nat, |k: int| now_ns),
                seq_nums@ == Seq::new(i as nat, |k: int| 0usize),
        {
            times.push(now_ns);
            seq_nums.push(0);
            assert(times@ =~= Seq::new((i + 1) as nat, |k: int| now_ns));
            assert(seq_nums@ =~= Seq::new((i + 1) as nat, |k: int| 0usize));
        }
        FrequencyStatus {
            name: name.to_owned(),
            window_size,
            count: 0,
            times,
            seq_nums,
            hist_index: 0,
        }
    }

    /// The name of the monitor.
    pub fn get_name(&self) -> (r: String)
        ensures
            r@ == self@.name,
    {
        self.name.clone()
    }

    /// The number of events since the start or the last clear.
    pub fn count(&self) -> (r: usize)
        ensures
            r == self@.count,
    {
        self.count
    }

    /// Forgets the events and restarts the window at `now_ns`.
    pub fn clear(&mut self, now_ns: i64)
        requires
            old(self)@.well_formed(),
        ensures
            final(self)@.well_formed(),
            final(self)@ == old(self)@.cleared(now_ns),
    {
        let n = self.window_size;
        let mut i: usize = 0;
        while i < n
            invariant
                n == self.window_size,
                self@.well_formed(),
                self.count == old(self)@.count,
                self@.name == old(self)@.name,
                self.window_size == old(self)@.window_size,
                self.hist_index == old(self)@.hist_index,
                i <= n,
                forall|k: int| 0 <= k < i ==> self.times@[k] == now_ns,
                forall|k: int| 0 <= k < i ==> self.seq_nums@[k] == 0,
            decreases n - i,
        {
            self.times.set(i, now_ns);
            self.seq_nums.set(i, 0);
            i += 1;
        }
        self.hist_index = 0;
        self.count = 0;
        assert(self.times@ =~= Seq::new(n as nat, |k: int| now_ns));
        assert(self.seq_nums@ =~= Seq::new(n as nat, |k: int| 0usize));
    }

    /// Counts one event.
    pub fn tick(&mut self)
        requires
            old(self)@.well_formed(),
            old(self)@.count < usize::MAX,
        ensures
            final(self)@.well_formed(),
            final(self)@ == old(self)@.ticked(),
    {
        self.count = self.count + 1;
    }

    /// Whether a run at `now_ns` can measure its window (see
    /// [`FrequencyView::can_advance`]).
    pub fn can_advance(&self, now_ns: i64) -> (b: bool)
        requires
            self@.well_formed(),
        ensures
            b == self@.can_advance(now_ns),
    {
        if self.window_size == 0 {
            return false;
        }
        let start = self.times[self.hist_index];
        now_ns.checked_sub(start).is_some()
    }

    /// Measures the window at `now_ns` and moves it on: returns the events
    /// since the current slot was recorded and the time since then, and
    /// records the count and `now_ns` in that slot.
    pub fn advance_window(&mut self, now_ns: i64) -> (sample: WindowSample)
        requires
            old(self)@.well_formed(),
            old(self)@.can_advance(now_ns),
        ensures
            final(self)@.well_formed(),
            final(self)@ == old(self)@.advanced(now_ns),
            sample.events == old(self)@.sample(now_ns).0,
            sample.window_ns == old(self)@.sample(now_ns).1,
    {
        let h = self.hist_index;
        let curseq = self.count;
        let events = curseq - self.seq_nums[h];
        let window = now_ns - self.times[h];
        self.seq_nums.set(h, curseq);
        self.times.set(h, now_ns);
        self.hist_index = (h + 1) % self.window_size;
        WindowSample { events, window_ns: window }
    }

    /// Fills the status from a measured window: the summary for the events
    /// and the band, then the events in the window, the events since the
    /// start, the window's length, the frequency's text, and the limits.
    pub fn report(
        &self,
        stat: &mut DiagnosticStatusWrapper,
        sample: &WindowSample,
        band: &FrequencyBand,
        freq_text: &str,
        limits: &Vec<KeyValue>,
    )
        ensures
            final(stat)@ == frequency_report(
                old(stat)@,
                self@.count,
                *sample,
                *band,
                freq_text@,
                values_view(limits@),
            ),
    {
        if sample.events == 0 {
            proof { reveal_strlit("No events recorded."); }
            stat.summary(2, "No events recorded.");
        } else {
            match band {
                FrequencyBand::TooLow => {
                    proof { reveal_strlit("Frequency too low."); }
                    stat.summary(1, "Frequency too low.");
                },
                FrequencyBand::TooHigh => {
                    proof { reveal_strlit("Frequency too high."); }
                    stat.summary(1, "Frequency too high.");
                },
                FrequencyBand::Met => {
                    proof { reveal_strlit("Desired frequency met"); }
                    stat.summary(0, "Desired frequency met");
                },
            }
        }
        proof { reveal_strlit("Events in window"); }
        stat.add_u64("Events in window", sample.events as u64);
        proof { reveal_strlit("Events since startup"); }
        stat.add_u64("Events since startup", self.count as u64);
        proof { reveal_strlit("Duration of window (s)"); }
        stat.add_i64("Duration of window (s)", sample.window_ns);
        proof { reveal_strlit("Actual frequency (Hz)"); }
        stat.add("Actual frequency (Hz)", freq_text);
        let ghost before = stat@;
        let n = limits.len();
        for i in 0..n
            invariant
                n == limits@.len(),
                stat@ == (StatusView {
                    values: before.values + values_view(limits@).take(i as int),
                    ..before
                }),
        {
            stat.add(limits[i].key.as_str(), limits[i].value.as_str());
            assert(values_view(limits@).take((i + 1) as int) =~= values_view(limits@).take(
                i as int,
            ).push(limits@[i as int]@));
            assert(before.values + values_view(limits@).take((i + 1) as int) =~= (before.values
                + values_view(limits@).take(i as int)).push(limits@[i as int]@));
        }
        assert(values_view(limits@).take(n as int) =~= values_view(limits@));
    }
}

/// What a timestamp monitor holds.
pub struct TimeStampView {
    pub name: Seq<char>,
    pub min_acceptable_ns: i64,
    pub max_acceptable_ns: i64,
    pub early_count: usize,
    pub late_count: usize,
    pub zero_count: usize,
    pub zero_seen: bool,
    pub max_delta_ns: i64,
    pub min_delta_ns: i64,
    pub deltas_valid: bool,
}

/// The texts of the delays that a timestamp run reports, rendered by the
/// caller: the earliest and latest delays seen, and the earliest and latest
/// acceptable ones.
pub struct DelayTexts {
    pub earliest: String,
    pub latest: String,
    pub earliest_acceptable: String,
    pub latest_acceptable: String,
}

impl View for DelayTexts {
    type V = (Seq<char>, Seq<char>, Seq<char>, Seq<char>);

    open spec fn view(&self) -> (Seq<char>, Seq<char>, Seq<char>, Seq<char>) {
        (self.earliest@, self.latest@, self.earliest_acceptable@, self.latest_acceptable@)
    }
}

impl TimeStampView {
    /// Whether a tick with `stamp_ns` at `now_ns` can take the delay: the
    /// stamp is zero or the delay fits in an `i64`.
    pub open spec fn can_tick(self, stamp_ns: i64, now_ns: i64) -> bool {
        stamp_ns == 0 || i64::MIN <= now_ns - stamp_ns <= i64::MAX
    }

    /// The monitor after a message stamped `stamp_ns` came at `now_ns`: a
    /// zero stamp is noted as such; any other widens the range of delays
    /// (`now_ns - stamp_ns`) seen since the last run.
    pub open spec fn ticked(self, stamp_ns: i64, now_ns: i64) -> TimeStampView {
        if stamp_ns == 0 {
            TimeStampView { zero_seen: true, ..self }
        } else {
            let delta = (now_ns - stamp_ns) as i64;
            TimeStampView {
                max_delta_ns: if !self.deltas_valid || delta > self.max_delta_ns {
                    delta
                } else {
                    self.max_delta_ns
                },
                min_delta_ns: if !self.deltas_valid || delta < self.min_delta_ns {
                    delta
                } else {
                    self.min_delta_ns
                },
                deltas_valid: true,
                ..self
            }
        }
    }

    /// A stamp further in the future than acceptable was seen.
    pub open spec fn too_early(self) -> bool {
        self.deltas_valid && self.min_delta_ns < self.min_acceptable_ns
    }

    /// A stamp further in the past than acceptable was seen.
    pub open spec fn too_late(self) -> bool {
        self.deltas_valid && self.max_delta_ns > self.max_acceptable_ns
    }

    /// A zero stamp was seen, along with others.
    pub open spec fn zero_reported(self) -> bool {
        self.deltas_valid && self.zero_seen
    }

    /// Whether a run can count what it reports without overflow.
    pub open spec fn can_run(self) -> bool {
        &&& self.too_early() ==> self.early_count < usize::MAX
        &&& self.too_late() ==> self.late_count < usize::MAX
        &&& self.zero_reported() ==> self.zero_count < usize::MAX
    }

    /// The level and message of a run: WARN without data since the last run,
    /// else ERROR for a zero stamp, then for a stamp too far in the past, then
    /// for one too far in the future, else OK.
    pub open spec fn summary(self) -> (u8, Seq<char>) {
        if !self.deltas_valid {
            (1u8, "No data since last update."@)
        } else if self.zero_seen {
            (2u8, "Zero timestamp seen."@)
        } else if self.too_late() {
            (2u8, "Timestamps too far in past seen."@)
        } else if self.too_early() {
            (2u8, "Timestamps too far in future seen."@)
        } else {
            (0u8, "Timestamps are reasonable."@)
        }
    }

    /// The monitor after a run: each problem reported is counted, and the
    /// range of delays and the zero stamp are forgotten.
    pub open spec fn after_run(self) -> TimeStampView {
        TimeStampView {
            early_count: if self.too_early() {
                (self.early_count + 1) as usize
            } else {
                self.early_count
            },
            late_count: if self.too_late() {
                (self.late_count + 1) as usize
            } else {
                self.late_count
            },
            zero_count: if self.zero_reported() {
                (self.zero_count + 1) as usize
            } else {
                self.zero_count
            },
            zero_seen: false,
            max_delta_ns: 0,
            min_delta_ns: 0,
            deltas_valid: false,
            ..self
        }
    }
}

/// The monitor after messages with the given stamps and arrival times.
pub open spec fn ticked_all(v: TimeStampView, ticks: Seq<(i64, i64)>) -> TimeStampView
    decreases ticks.len(),
{
    if ticks.len() == 0 {
        v
    } else {
        ticked_all(v, ticks.drop_last()).ticked(ticks.last().0, ticks.last().1)
    }
}

/// The delays of the messages with a non-zero stamp, in order.
pub open spec fn stamp_delays(ticks: Seq<(i64, i64)>) -> Seq<int>
    decreases ticks.len(),
{
    if ticks.len() == 0 {
        Seq::empty()
    } else if ticks.last().0 == 0 {
        stamp_delays(ticks.drop_last())
    } else {
        stamp_delays(ticks.drop_last()).push(ticks.last().1 - ticks.last().0)
    }
}

/// The least element of a non-empty sequence.
pub open spec fn seq_min(s: Seq<int>) -> int
    decreases s.len(),
{
    if s.len() <= 1 {
        s[0]
    } else if s.last() < seq_min(s.drop_last()) {
        s.last()
    } else {
        seq_min(s.drop_last())
    }
}

/// The greatest element of a non-empty sequence.
pub open spec fn seq_max(s: Seq<int>) -> int
    decreases s.len(),
{
    if s.len() <= 1 {
        s[0]
    } else if s.last() > seq_max(s.drop_last()) {
        s.last()
    } else {
        seq_max(s.drop_last())
    }
}

/// Law: a zero stamp can always be taken, and so can any stamp when both it
/// and the clock reading are not negative; a run can always count what it
/// reports while the counts are below their limit.
pub proof fn lemma_can_tick_and_run(v: TimeStampView, stamp_ns: i64, now_ns: i64)
    ensures
        v.can_tick(0, now_ns),
        stamp_ns >= 0 && now_ns >= 0 ==> v.can_tick(stamp_ns, now_ns),
        v.early_count < usize::MAX && v.late_count < usize::MAX && v.zero_count < usize::MAX
            ==> v.can_run(),
{
}

/// Law: from the start of a period (no delay seen), a series of messages
/// leaves as the least and greatest delays the least and greatest of the
/// delays of the messages with a non-zero stamp; delays count as seen only
/// when there is such a message; and a zero stamp is noted when one came.
pub proof fn lemma_delay_extremes(v: TimeStampView, ticks: Seq<(i64, i64)>)
    requires
        !v.deltas_valid,
        forall|i: int| 0 <= i < ticks.len() ==> v.can_tick(#[trigger] ticks[i].0, ticks[i].1),
    ensures
        ticked_all(v, ticks).deltas_valid == (stamp_delays(ticks).len() > 0),
        ticked_all(v, ticks).deltas_valid ==> ticked_all(v, ticks).min_delta_ns == seq_min(
            stamp_delays(ticks),
        ) && ticked_all(v, ticks).max_delta_ns == seq_max(stamp_delays(ticks)),
        ticked_all(v, ticks).zero_seen == (v.zero_seen || exists|i: int|
            0 <= i < ticks.len() && #[trigger] ticks[i].0 == 0),
    decreases ticks.len(),
{
    if ticks.len() > 0 {
        let prev = ticks.drop_last();
        assert forall|i: int| 0 <= i < prev.len() implies v.can_tick(
            #[trigger] prev[i].0,
            prev[i].1,
        ) by {
            assert(prev[i] == ticks[i]);
        }
        lemma_delay_extremes(v, prev);
        let last = ticks.last();
        assert(v.can_tick(ticks[ticks.len() - 1].0, ticks[ticks.len() - 1].1));
        let d = stamp_delays(ticks);
        let pd = stamp_delays(prev);
        if last.0 != 0 {
            assert(d.drop_last() =~= pd);
            assert(d.last() == last.1 - last.0);
        }
        if exists|i: int| 0 <= i < prev.len() && #[trigger] prev[i].0 == 0 {
            let i = choose|i: int| 0 <= i < prev.len() && #[trigger] prev[i].0 == 0;
            assert(ticks[i] == prev[i]);
        }
        if exists|i: int| 0 <= i < ticks.len() && #[trigger] ticks[i].0 == 0 {
            let i = choose|i: int| 0 <= i < ticks.len() && #[trigger] ticks[i].0 == 0;
            if i < prev.len() {
                assert(prev[i] == ticks[i]);
            }
        }
    }
}

/// Law: a run forgets the period's stamps, so a run right after it reports
/// that no data came (WARN).
pub proof fn lemma_run_twice_reports_no_data(v: TimeStampView)
    ensures
        v.after_run().summary() == (1u8, "No data since last update."@),
{
}

/// Messages change neither the acceptable range nor the counts.
proof fn lemma_ticked_all_keeps(v: TimeStampView, ticks: Seq<(i64, i64)>)
    ensures
        ticked_all(v, ticks).min_acceptable_ns == v.min_acceptable_ns,
        ticked_all(v, ticks).max_acceptable_ns == v.max_acceptable_ns,
        ticked_all(v, ticks).early_count == v.early_count,
        ticked_all(v, ticks).late_count == v.late_count,
        ticked_all(v, ticks).zero_count == v.zero_count,
    decreases ticks.len(),
{
    if ticks.len() > 0 {
        lemma_ticked_all_keeps(v, ticks.drop_last());
    }
}

/// Law: at the end of a period that began with a run (or the monitor's
/// creation), a run reports WARN when no message with a non-zero stamp came,
/// ERROR when the least delay is below the acceptable range, the greatest
/// above it, or a zero stamp came, and OK otherwise; it counts each of the
/// three problems it found, and starts the next period afresh.
pub proof fn lemma_period_verdict(v: TimeStampView, ticks: Seq<(i64, i64)>)
    requires
        !v.deltas_valid,
        !v.zero_seen,
        v.early_count < usize::MAX,
        v.late_count < usize::MAX,
        v.zero_count < usize::MAX,
        forall|i: int| 0 <= i < ticks.len() ==> v.can_tick(#[trigger] ticks[i].0, ticks[i].1),
    ensures
        ({
            let w = ticked_all(v, ticks);
            let d = stamp_delays(ticks);
            let z = exists|i: int| 0 <= i < ticks.len() && #[trigger] ticks[i].0 == 0;
            let early = d.len() > 0 && seq_min(d) < v.min_acceptable_ns;
            let late = d.len() > 0 && seq_max(d) > v.max_acceptable_ns;
            &&& w.summary().0 == if d.len() == 0 {
                1u8
            } else if early || late || z {
                2u8
            } else {
                0u8
            }
            &&& w.after_run().early_count == v.early_count + if early {
                1int
            } else {
                0int
            }
            &&& w.after_run().late_count == v.late_count + if late {
                1int
            } else {
                0int
            }
            &&& w.after_run().zero_count == v.zero_count + if d.len() > 0 && z {
                1int
            } else {
                0int
            }
            &&& !w.after_run().deltas_valid
            &&& !w.after_run().zero_seen
        }),
{
    lemma_delay_extremes(v, ticks);
    lemma_ticked_all_keeps(v, ticks);
}

/// Law: a timestamp run keeps the values already in the status and
/// appends, in order: under "Earliest timestamp delay:" the rendering of the
/// least delay seen, under "Latest timestamp delay:" that of the greatest,
/// the renderings of the acceptable range, and the counts of runs that found
/// stamps too late, too early and zero, each counting this run when it found
/// that problem among data; it keeps the status's name and hardware id.
pub proof fn lemma_timestamp_report_values(
    s: StatusView,
    v: TimeStampView,
    texts: (Seq<char>, Seq<char>, Seq<char>, Seq<char>),
)
    ensures
        ({
            let r = timestamp_report(s, v, texts);
            let n = s.values.len() as int;
            let early = v.deltas_valid && v.min_delta_ns < v.min_acceptable_ns;
            let late = v.deltas_valid && v.max_delta_ns > v.max_acceptable_ns;
            let zero = v.deltas_valid && v.zero_seen;
            &&& r.values.len() == n + 7
            &&& r.values.take(n) == s.values
            &&& r.values[n] == ("Earliest timestamp delay:"@, texts.0)
            &&& r.values[n + 1] == ("Latest timestamp delay:"@, texts.1)
            &&& r.values[n + 2] == ("Earliest acceptable timestamp delay:"@, texts.2)
            &&& r.values[n + 3] == ("Latest acceptable timestamp delay:"@, texts.3)
            &&& r.values[n + 4] == ("Late diagnostic update count:"@, decimal_of_nat(
                (if late {
                    (v.late_count + 1) as usize
                } else {
                    v.late_count
                }) as nat,
            ))
            &&& r.values[n + 5] == ("Early diagnostic update count:"@, decimal_of_nat(
                (if early {
                    (v.early_count + 1) as usize
                } else {
                    v.early_count
                }) as nat,
            ))
            &&& r.values[n + 6] == ("Zero seen diagnostic update count:"@, decimal_of_nat(
                (if zero {
                    (v.zero_count + 1) as usize
                } else {
                    v.zero_count
                }) as nat,
            ))
            &&& r.name == s.name
            &&& r.hardware_id == s.hardware_id
            &&& r.level == if !v.deltas_valid {
                1u8
            } else if early || late || v.zero_seen {
                2u8
            } else {
                0u8
            }
        }),
{
    let r = timestamp_report(s, v, texts);
    let n = s.values.len() as int;
    assert(r.values.take(n) =~= s.values);
}

/// The status a timestamp run reports.
pub open spec fn timestamp_report(
    s: StatusView,
    v: TimeStampView,
    texts: (Seq<char>, Seq<char>, Seq<char>, Seq<char>),
) -> StatusView {
    let after = v.after_run();
    let s0 = with_summary(s, v.summary().0, v.summary().1);
    let s1 = with_value(s0, "Earliest timestamp delay:"@, texts.0);
    let s2 = with_value(s1, "Latest timestamp delay:"@, texts.1);
    let s3 = with_value(s2, "Earliest acceptable timestamp delay:"@, texts.2);
    let s4 = with_value(s3, "Latest acceptable timestamp delay:"@, texts.3);
    let s5 = with_value(
        s4,
        "Late diagnostic update count:"@,
        decimal_of_nat(after.late_count as nat),
    );
    let s6 = with_value(
        s5,
        "Early diagnostic update count:"@,
        decimal_of_nat(after.early_count as nat),
    );
    with_value(s6, "Zero seen diagnostic update count:"@, decimal_of_nat(after.zero_count as nat))
}

/// A monitor of the time stamps of messages: the range of their delays
/// since the last run, whether a zero stamp came, and counts of the runs
/// that found stamps out of the acceptable range.
pub struct TimeStampStatus {
    name: String,
    min_acceptable_ns: i64,
    max_acceptable_ns: i64,
    early_count: usize,
    late_count: usize,
    zero_count: usize,
    zero_seen: bool,
    max_delta_ns: i64,
    min_delta_ns: i64,
    deltas_valid: bool,
}

impl View for TimeStampStatus {
    type V = TimeStampView;

    closed spec fn view(&self) -> TimeStampView {
        TimeStampView {
            name: self.name@,
            min_acceptable_ns: self.min_acceptable_ns,
            max_acceptable_ns: self.max_acceptable_ns,
            early_count: self.early_count,
            late_count: self.late_count,
            zero_count: self.zero_count,
            zero_seen: self.zero_seen,
            max_delta_ns: self.max_delta_ns,
            min_delta_ns: self.min_delta_ns,
            deltas_valid: self.deltas_valid,
        }
    }
}

/// A fresh timestamp monitor.
pub open spec fn fresh_timestamp_view(
    name: Seq<char>,
    min_acceptable_ns: i64,
    max_acceptable_ns: i64,
) -> TimeStampView {
    TimeStampView {
        name: name,
        min_acceptable_ns: min_acceptable_ns,
        max_acceptable_ns: max_acceptable_ns,
        early_count: 0,
        late_count: 0,
        zero_count: 0,
        zero_seen: false,
        max_delta_ns: 0,
        min_delta_ns: 0,
        deltas_valid: false,
    }
}

impl TimeStampStatus {
    /// A monitor named "Timestamp Status" that accepts delays from
    /// `min_acceptable_ns` to `max_acceptable_ns`.
    pub fn new(min_acceptable_ns: i64, max_acceptable_ns: i64) -> (t: Self)
        ensures
            t@ == fresh_timestamp_view("Timestamp Status"@, min_acceptable_ns, max_acceptable_ns),
    {
        proof { reveal_strlit("Timestamp Status"); }
        Self::with_name(min_acceptable_ns, max_acceptable_ns, "Timestamp Status")
    }

    /// A monitor with the given name that accepts delays from
    /// `min_acceptable_ns` to `max_acceptable_ns`.
    pub fn with_name(min_acceptable_ns: i64, max_acceptable_ns: i64, name: &str) -> (t: Self)
        ensures
            t@ == fresh_timestamp_view(name@, min_acceptable_ns, max_acceptable_ns),
    {
        TimeStampStatus {
            name: name.to_owned(),
            min_acceptable_ns,
            max_acceptable_ns,
            early_count: 0,
            late_count: 0,
            zero_count: 0,
            zero_seen: false,
            max_delta_ns: 0,
            min_delta_ns: 0,
            deltas_valid: false,
        }
    }

    /// The name of the monitor.
    pub fn get_name(&self) -> (r: String)
        ensures
            r@ == self@.name,
    {
        self.name.clone()
    }

    /// The least delay seen since the last run (zero when none was).
    pub fn min_delta_ns(&self) -> (r: i64)
        ensures
            r == self@.min_delta_ns,
    {
        self.min_delta_ns
    }

    /// The greatest delay seen since the last run (zero when none was).
    pub fn max_delta_ns(&self) -> (r: i64)
        ensures
            r == self@.max_delta_ns,
    {
        self.max_delta_ns
    }

    /// Whether a tick with `stamp_ns` at `now_ns` can take the delay.
    pub fn can_tick(&self, stamp_ns: i64, now_ns: i64) -> (b: bool)
        ensures
            b == self@.can_tick(stamp_ns, now_ns),
    {
        stamp_ns == 0 || now_ns.checked_sub(stamp_ns).is_some()
    }

    /// Records a message stamped `stamp_ns` that came at `now_ns`.
    pub fn tick(&mut self, stamp_ns: i64, now_ns: i64)
        requires
            old(self)@.can_tick(stamp_ns, now_ns),
        ensures
            final(self)@ == old(self)@.ticked(stamp_ns, now_ns),
    {
        if stamp_ns == 0 {
            self.zero_seen = true;
        } else {
            let delta = now_ns - stamp_ns;
            if !self.deltas_valid || delta > self.max_delta_ns {
                self.max_delta_ns = delta;
            }
            if !self.deltas_valid || delta < self.min_delta_ns {
                self.min_delta_ns = delta;
            }
            self.deltas_valid = true;
        }
    }

    /// Whether a run can count what it reports without overflow.
    pub fn can_run(&self) -> (b: bool)
        ensures
            b == self@.can_run(),
    {
        let early = self.deltas_valid && self.min_delta_ns < self.min_acceptable_ns;
        let late = self.deltas_valid && self.max_delta_ns > self.max_acceptable_ns;
        let zero = self.deltas_valid && self.zero_seen;
        (!early || self.early_count < usize::MAX) && (!late || self.late_count < usize::MAX) && (
        !zero || self.zero_count < usize::MAX)
    }

    /// Fills the status with the verdict on the stamps seen since the last
    /// run, the delays (as the caller rendered them) and the counts of
    /// problems, then starts a new period.
    pub fn run(&mut self, stat: &mut DiagnosticStatusWrapper, texts: &DelayTexts)
        requires
            old(self)@.can_run(),
        ensures
            final(self)@ == old(self)@.after_run(),
            final(stat)@ == timestamp_report(old(stat)@, old(self)@, texts@),
    {
        proof { reveal_strlit("Timestamps are reasonable."); }
        stat.summary(0, "Timestamps are reasonable.");
        if !self.deltas_valid {
            proof { reveal_strlit("No data since last update."); }
            stat.summary(1, "No data since last update.");
        } else {
            if self.min_delta_ns < self.min_acceptable_ns {
                proof { reveal_strlit("Timestamps too far in future seen."); }
                stat.summary(2, "Timestamps too far in future seen.");
                self.early_count = self.early_count + 1;
            }
            if self.max_delta_ns > self.max_acceptable_ns {
                proof { reveal_strlit("Timestamps too far in past seen."); }
                stat.summary(2, "Timestamps too far in past seen.");
                self.late_count = self.late_count + 1;
            }
            if self.zero_seen {
                proof { reveal_strlit("Zero timestamp seen."); }
                stat.summary(2, "Zero timestamp seen.");
                self.zero_count = self.zero_count + 1;
            }
        }
        proof { reveal_strlit("Earliest timestamp delay:"); }
        stat.add("Earliest timestamp delay:", texts.earliest.as_str());
        proof { reveal_strlit("Latest timestamp delay:"); }
        stat.add("Latest timestamp delay:", texts.latest.as_str());
        proof { reveal_strlit("Earliest acceptable timestamp delay:"); }
        stat.add("Earliest acceptable timestamp delay:", texts.earliest_acceptable.as_str());
        proof { reveal_strlit("Latest acceptable timestamp delay:"); }
        stat.add("Latest acceptable timestamp delay:", texts.latest_acceptable.as_str());
        proof { reveal_strlit("Late diagnostic update count:"); }
        stat.add_u64("Late diagnostic update count:", self.late_count as u64);
        proof { reveal_strlit("Early diagnostic update count:"); }
        stat.add_u64("Early diagnostic update count:", self.early_count as u64);
        proof { reveal_strlit("Zero seen diagnostic update count:"); }
        stat.add_u64("Zero seen diagnostic update count:", self.zero_count as u64);
        self.deltas_valid = false;
        self.min_delta_ns = 0;
        self.max_delta_ns = 0;
        self.zero_seen = false;
    }
}

} // verus!
