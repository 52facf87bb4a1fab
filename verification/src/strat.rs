//! The strategy planner: from the fuel state, the race end condition and the
//! green/yellow lap rates it computes the stints to run, the pit-stop
//! windows, and how much fuel saving would drop the final stop.
//!
//! The planner walks the predicted laps of the rest of the race: first the
//! yellow laps still to go, then green laps until the race end condition
//! stops it. Whenever the tank cannot cover the next lap plus the reserve,
//! the current stint closes and the tank refills.

use crate::timespan::nano_limit;
use crate::timespan::TimeSpan;
use vstd::prelude::*;
use vstd::string::StringExecFns;

verus! {

broadcast use crate::timespan::lemma_timespan_view_nonneg;

/// Largest fuel amount, in milli-litres, the planner accepts in any single
/// input field; sums over a whole race then stay inside `u64`.
pub const MAX_FUEL_MILLI: u64 = 0x4000_0000;

/// Largest single-lap duration, in nanoseconds, the planner accepts; sums
/// over a whole race then stay inside a `TimeSpan`.
pub const MAX_LAP_NANOS: u64 = 0x1000_0000_0000_0000;

/// Most laps any plan can contain.
pub const MAX_PLAN_LAPS: u64 = 0x7fff_ffff;

/// The conditions a lap was driven under, as a set of flag bits. The bit
/// values are part of the persisted lap-history format.
#[derive(Clone, Copy, Debug, PartialEq, Eq, Structural)]
pub struct LapState {
    pub bits: u32,
}

impl LapState {
    /// A lap under no special condition: a plain green lap.
    pub fn empty() -> (r: LapState)
        ensures
            r.bits == 0,
    {
        LapState { bits: 0 }
    }

    /// A lap run under caution.
    pub fn yellow() -> (r: LapState)
        ensures
            r.bits == 0x01,
    {
        LapState { bits: 0x01 }
    }

    /// A lap that visited the pit lane.
    pub fn pitted() -> (r: LapState)
        ensures
            r.bits == 0x02,
    {
        LapState { bits: 0x02 }
    }

    /// A parade or warmup lap.
    pub fn pace_lap() -> (r: LapState)
        ensures
            r.bits == 0x04,
    {
        LapState { bits: 0x04 }
    }

    /// A caution lap with one lap to green.
    pub fn one_to_green() -> (r: LapState)
        ensures
            r.bits == 0x08,
    {
        LapState { bits: 0x08 }
    }

    /// A caution lap with two laps to green.
    pub fn two_to_green() -> (r: LapState)
        ensures
            r.bits == 0x10,
    {
        LapState { bits: 0x10 }
    }

    /// Whether no condition bit is set.
    pub fn is_empty(&self) -> (r: bool)
        ensures
            r == (self.bits == 0),
    {
        self.bits == 0
    }

    /// Whether this state shares any bit with the other.
    pub fn intersects(&self, other: LapState) -> (r: bool)
        ensures
            r == (self.bits & other.bits != 0),
    {
        self.bits & other.bits != 0
    }

    /// The union of the two condition sets.
    pub fn union(self, other: LapState) -> (r: LapState)
        ensures
            r.bits == self.bits | other.bits,
    {
        LapState { bits: self.bits | other.bits }
    }

    /// The condition set as readable text, for the persisted lap rows.
    pub fn text(&self) -> (r: String)
        ensures
            r@ == spec_cond_text(self.bits),
    {
        let mut r = String::new();
        if self.bits & 0x01 != 0 {
            r.append("YELLOW|");
        }
        if self.bits & 0x02 != 0 {
            r.append("PITTED|");
        }
        if self.bits & 0x04 != 0 {
            r.append("PACE_LAP|");
        }
        if self.bits & 0x08 != 0 {
            r.append("ONE_TO_GREEN|");
        }
        if self.bits & 0x10 != 0 {
            r.append("TWO_TO_GREEN|");
        }
        proof {
            assert(r@ =~= spec_cond_text(self.bits));
        }
        r
    }
}

/// The readable rendering of a condition set: each set flag's name
/// followed by a separator, in bit order; empty for a plain green lap.
pub open spec fn spec_cond_text(bits: u32) -> Seq<char> {
    (if bits & 0x01 != 0 {
        "YELLOW|"@
    } else {
        Seq::<char>::empty()
    }) + (if bits & 0x02 != 0 {
        "PITTED|"@
    } else {
        Seq::<char>::empty()
    }) + (if bits & 0x04 != 0 {
        "PACE_LAP|"@
    } else {
        Seq::<char>::empty()
    }) + (if bits & 0x08 != 0 {
        "ONE_TO_GREEN|"@
    } else {
        Seq::<char>::empty()
    }) + (if bits & 0x10 != 0 {
        "TWO_TO_GREEN|"@
    } else {
        Seq::<char>::empty()
    })
}

/// One completed lap: the fuel it used, the fuel left at its end, its
/// duration, and the conditions it ran under.
#[derive(Clone, Copy, Debug)]
pub struct Lap {
    pub fuel_used: u64,
    pub fuel_left: u64,
    pub time: TimeSpan,
    pub condition: LapState,
}

/// A per-lap consumption rate: fuel in milli-litres and time per lap.
#[derive(Clone, Copy, Debug, PartialEq, Eq, Structural)]
pub struct Rate {
    pub fuel: u64,
    pub time: TimeSpan,
}

impl Default for Rate {
    /// The zero rate.
    fn default() -> (r: Rate)
        ensures
            r.fuel == 0,
            r.time@ == 0,
    {
        Rate { fuel: 0, time: TimeSpan::zero() }
    }
}

/// A rate is small enough for race-long sums to stay in range.
pub open spec fn rate_wf(r: Rate) -> bool {
    r.fuel <= MAX_FUEL_MILLI && r.time@ <= MAX_LAP_NANOS
}

impl Rate {
    /// This rate with one lap's fuel and time added on; used when
    /// accumulating an average over recent laps.
    pub fn add(self, rhs: &Lap) -> (r: Rate)
        requires
            self.fuel + rhs.fuel_used <= u64::MAX,
            self.time@ + rhs.time@ < nano_limit(),
        ensures
            r.fuel == self.fuel + rhs.fuel_used,
            r.time@ == self.time@ + rhs.time@,
    {
        Rate { fuel: self.fuel + rhs.fuel_used, time: self.time.plus(rhs.time) }
    }
}

/// A planned pit stop window, in laps counted from the moment the strategy
/// was computed. `open == 0` means the window is already open.
#[derive(Clone, Copy, Debug, PartialEq, Eq, Structural)]
pub struct Pitstop {
    pub open: i32,
    pub close: i32,
}

impl Pitstop {
    pub fn new(open: i32, close: i32) -> (r: Pitstop)
        ensures
            r.open == open,
            r.close == close,
    {
        Pitstop { open, close }
    }

    /// The window is open once its opening lap is no longer in the future.
    pub fn is_open(&self) -> (r: bool)
        ensures
            r == (self.open <= 0),
    {
        self.open <= 0
    }
}

/// A contiguous run of laps between fuelings.
#[derive(Clone, Copy, Debug, PartialEq, Eq, Structural)]
pub struct Stint {
    pub laps: u64,
    pub fuel: u64,
    pub time: TimeSpan,
}

impl Stint {
    /// An empty stint.
    pub fn new() -> (r: Stint)
        ensures
            r.laps == 0,
            r.fuel == 0,
            r.time@ == 0,
    {
        Stint { laps: 0, fuel: 0, time: TimeSpan::zero() }
    }

    /// Extends the stint by one lap at the given rate.
    pub fn add(&mut self, lap: &Rate)
        requires
            old(self).laps + 1 <= u64::MAX,
            old(self).fuel + lap.fuel <= u64::MAX,
            old(self).time@ + lap.time@ < nano_limit(),
        ensures
            final(self).laps == old(self).laps + 1,
            final(self).fuel == old(self).fuel + lap.fuel,
            final(self).time@ == old(self).time@ + lap.time@,
    {
        self.laps = self.laps + 1;
        self.fuel = self.fuel + lap.fuel;
        self.time = self.time.plus(lap.time);
    }
}

/// When the race ends: after a lap count, after a time, or at whichever of
/// the two comes first.
#[derive(Clone, Copy, Debug, PartialEq, Eq, Structural)]
pub enum EndsWith {
    Laps(i32),
    Time(TimeSpan),
    LapsOrTime(i32, TimeSpan),
}

/// A whole computed plan: the stints to run, the pit windows between them,
/// the fuel saving that would drop the last stop, and the rates it was
/// computed from.
#[derive(Clone, Debug)]
pub struct Strategy {
    pub stints: Vec<Stint>,
    pub stops: Vec<Pitstop>,
    pub fuel_to_save: u64,
    pub green: Rate,
    pub yellow: Rate,
}

impl Default for Strategy {
    /// An empty plan with zero rates.
    fn default() -> (r: Strategy)
        ensures
            r.stints@.len() == 0,
            r.stops@.len() == 0,
            r.fuel_to_save == 0,
            r.green.fuel == 0 && r.green.time@ == 0,
            r.yellow.fuel == 0 && r.yellow.time@ == 0,
    {
        Strategy {
            stints: Vec::new(),
            stops: Vec::new(),
            fuel_to_save: 0,
            green: Rate { fuel: 0, time: TimeSpan::zero() },
            yellow: Rate { fuel: 0, time: TimeSpan::zero() },
        }
    }
}

/// What the planner is asked to plan from: the fuel state, the limits of
/// the car, the yellow laps still to go, the race end condition, and the
/// two lap rates. `max_fuel_save` is in per-mille of the total fuel.
#[derive(Clone, Debug)]
pub struct StratRequest {
    pub fuel_left: u64,
    pub tank_size: u64,
    pub max_fuel_save: u32,
    pub min_fuel: u64,
    pub yellow_togo: u32,
    pub ends: EndsWith,
    pub green: Rate,
    pub yellow: Rate,
}

// ---------------------------------------------------------------------------
// The mathematical model of the plan.
//
// Lap `i` of the predicted remainder of the race runs at `lap_rate(req, i)`.
// `keep_going(req, n)` is the race-end test evaluated before lap `n` runs;
// the plan length is the first `n` where it fails. The fuel recurrence
// `fuel_at` tracks the tank across laps and `stop_before(req, i)` marks the
// laps that begin a fresh stint. `closed_ranges` collects the stints closed
// by such stops as half-open lap ranges.
// ---------------------------------------------------------------------------

/// The rate lap `i` is predicted to run at: the remaining yellow laps come
/// first, green laps follow.
pub open spec fn lap_rate(req: StratRequest, i: int) -> Rate {
    if i < req.yellow_togo {
        req.yellow
    } else {
        req.green
    }
}

/// Total predicted time of laps `0 .. n`, in nanoseconds.
pub open spec fn acc_time(req: StratRequest, n: int) -> int
    decreases n,
{
    if n <= 0 {
        0
    } else {
        acc_time(req, n - 1) + lap_rate(req, n - 1).time@
    }
}

/// The race-end test before lap `n` runs: a lap-count limit is strict, a
/// time limit counts the lap during which time runs out.
pub open spec fn keep_going(req: StratRequest, n: int) -> bool {
    match req.ends {
        EndsWith::Laps(l) => n < l,
        EndsWith::Time(d) => acc_time(req, n) <= d@,
        EndsWith::LapsOrTime(l, d) => n < l && acc_time(req, n) <= d@,
    }
}

/// `n` is the number of laps the plan runs: every earlier test passes and
/// the test before lap `n` fails.
pub open spec fn is_plan_len(req: StratRequest, n: int) -> bool {
    0 <= n && !keep_going(req, n) && forall|j: int| 0 <= j < n ==> keep_going(req, j)
}

/// The number of laps the plan runs.
pub open spec fn plan_len(req: StratRequest) -> int {
    choose|n: int| is_plan_len(req, n)
}

/// Fuel in the tank when the refill check before lap `i` is made.
pub open spec fn fuel_at(req: StratRequest, i: int) -> int
    decreases i,
{
    if i <= 0 {
        req.fuel_left as int
    } else {
        let prev = fuel_at(req, i - 1);
        let rate = lap_rate(req, i - 1);
        let avail = if prev < rate.fuel + req.min_fuel {
            req.tank_size as int
        } else {
            prev
        };
        avail - rate.fuel
    }
}

/// Whether a refill happens before lap `i`: the tank cannot cover the lap
/// plus the reserve.
pub open spec fn stop_before(req: StratRequest, i: int) -> bool {
    fuel_at(req, i) < lap_rate(req, i).fuel + req.min_fuel
}

/// The lap index the stint in progress after `i` laps started at.
pub open spec fn stint_start(req: StratRequest, i: int) -> int
    decreases i,
{
    if i <= 0 {
        0
    } else if stop_before(req, i - 1) {
        i - 1
    } else {
        stint_start(req, i - 1)
    }
}

/// The stints already closed after `i` laps, as half-open lap ranges in
/// order. A stop before the very first lap closes an empty range.
pub open spec fn closed_ranges(req: StratRequest, i: int) -> Seq<(int, int)>
    decreases i,
{
    if i <= 0 {
        Seq::empty()
    } else if stop_before(req, i - 1) {
        closed_ranges(req, i - 1).push((stint_start(req, i - 1), i - 1))
    } else {
        closed_ranges(req, i - 1)
    }
}

/// All stints of the finished plan, as lap ranges: the closed ones plus the
/// one in progress at the end, which is non-empty whenever any lap ran.
pub open spec fn plan_ranges(req: StratRequest) -> Seq<(int, int)> {
    let n = plan_len(req);
    if n > stint_start(req, n) {
        closed_ranges(req, n).push((stint_start(req, n), n))
    } else {
        closed_ranges(req, n)
    }
}

/// Total predicted fuel of laps `a .. b`, in milli-litres.
pub open spec fn fuel_sum(req: StratRequest, a: int, b: int) -> int
    decreases b - a,
{
    if b <= a {
        0
    } else {
        fuel_sum(req, a, b - 1) + lap_rate(req, b - 1).fuel
    }
}

/// Total predicted time of laps `a .. b`, in nanoseconds.
pub open spec fn time_sum(req: StratRequest, a: int, b: int) -> int
    decreases b - a,
{
    if b <= a {
        0
    } else {
        time_sum(req, a, b - 1) + lap_rate(req, b - 1).time@
    }
}

/// A stint value records exactly the laps of the range `a .. b`.
pub open spec fn stint_matches(req: StratRequest, st: Stint, a: int, b: int) -> bool {
    &&& st.laps == b - a
    &&& st.fuel == fuel_sum(req, a, b)
    &&& st.time@ == time_sum(req, a, b)
}

/// The inputs the planner accepts: fuel fields and rates bounded so race
/// sums stay in range, a positive green fuel rate, and for a purely timed
/// race a positive green lap time that bounds the lap count. These are
/// the caller's obligations; the planner does not re-check them.
pub open spec fn req_wf(req: StratRequest) -> bool {
    &&& rate_wf(req.green)
    &&& rate_wf(req.yellow)
    &&& req.fuel_left <= MAX_FUEL_MILLI
    &&& req.tank_size <= MAX_FUEL_MILLI
    &&& req.min_fuel <= MAX_FUEL_MILLI
    &&& req.green.fuel >= 1
    &&& req.yellow_togo <= 0x4000_0000
    &&& match req.ends {
        EndsWith::Laps(l) => true,
        EndsWith::Time(d) => req.green.time@ >= 1 && d@ < req.green.time@ * 0x3fff_ffff,
        EndsWith::LapsOrTime(l, d) => true,
    }
}

// ---------------------------------------------------------------------------
// Bounds and structure of the model.
// ---------------------------------------------------------------------------

/// Accumulated lap time grows by at most the largest lap time per lap.
proof fn lemma_acc_time_bound(req: StratRequest, n: int)
    requires
        req_wf(req),
        n >= 0,
    ensures
        0 <= acc_time(req, n) <= n * (MAX_LAP_NANOS as int),
    decreases n,
{
    if n > 0 {
        lemma_acc_time_bound(req, n - 1);
        assert((n - 1) * (MAX_LAP_NANOS as int) + MAX_LAP_NANOS == n * (MAX_LAP_NANOS as int))
            by (nonlinear_arith);
    }
}

/// After the yellow laps are spent, every lap adds at least the green lap
/// time.
proof fn lemma_acc_time_green_floor(req: StratRequest, n: int)
    requires
        req_wf(req),
        n >= req.yellow_togo,
    ensures
        acc_time(req, n) >= (n - req.yellow_togo) * req.green.time@,
    decreases n,
{
    if n == req.yellow_togo {
        lemma_acc_time_bound(req, n);
        assert((n - req.yellow_togo) * req.green.time@ == 0) by (nonlinear_arith)
            requires
                n == req.yellow_togo,
        ;
    } else {
        lemma_acc_time_green_floor(req, n - 1);
        assert(lap_rate(req, n - 1) == req.green);
        assert((n - req.yellow_togo) * req.green.time@ == (n - 1 - req.yellow_togo)
            * req.green.time@ + req.green.time@) by (nonlinear_arith);
    }
}

/// Any lap index that still passes the race-end test is well below the lap
/// cap, so lap counters fit their integer types.
proof fn lemma_keep_going_bound(req: StratRequest, n: int)
    requires
        req_wf(req),
        n >= 0,
        keep_going(req, n),
    ensures
        n <= MAX_PLAN_LAPS - 1,
{
    match req.ends {
        EndsWith::Laps(l) => {
        },
        EndsWith::Time(d) => {
            if n >= req.yellow_togo {
                lemma_acc_time_green_floor(req, n);
                if n - req.yellow_togo >= 0x3fff_ffff {
                    assert((n - req.yellow_togo) * req.green.time@ >= 0x3fff_ffff
                        * req.green.time@) by (nonlinear_arith)
                        requires
                            n - req.yellow_togo >= 0x3fff_ffff,
                            req.green.time@ >= 1,
                    ;
                    assert(false);
                }
            }
        },
        EndsWith::LapsOrTime(l, d) => {
        },
    }
}

/// The tank level stays within one maximal fuel amount of zero on either
/// side.
proof fn lemma_fuel_at_bounds(req: StratRequest, i: int)
    requires
        req_wf(req),
        i >= 0,
    ensures
        -(MAX_FUEL_MILLI as int) <= fuel_at(req, i) <= MAX_FUEL_MILLI,
    decreases i,
{
    if i > 0 {
        lemma_fuel_at_bounds(req, i - 1);
    }
}

/// Range fuel sums are non-negative and at most one maximal amount per lap.
proof fn lemma_fuel_sum_bounds(req: StratRequest, a: int, b: int)
    requires
        req_wf(req),
        a <= b,
    ensures
        0 <= fuel_sum(req, a, b) <= (b - a) * (MAX_FUEL_MILLI as int),
    decreases b - a,
{
    if a < b {
        lemma_fuel_sum_bounds(req, a, b - 1);
        assert(lap_rate(req, b - 1).fuel <= MAX_FUEL_MILLI);
        assert((b - 1 - a) * (MAX_FUEL_MILLI as int) + MAX_FUEL_MILLI == (b - a) * (
        MAX_FUEL_MILLI as int)) by (nonlinear_arith);
    } else {
        assert((b - a) * (MAX_FUEL_MILLI as int) == 0) by (nonlinear_arith)
            requires
                b == a,
        ;
    }
}

/// Range time sums are non-negative and at most one maximal lap time per
/// lap.
proof fn lemma_time_sum_bounds(req: StratRequest, a: int, b: int)
    requires
        req_wf(req),
        a <= b,
    ensures
        0 <= time_sum(req, a, b) <= (b - a) * (MAX_LAP_NANOS as int),
    decreases b - a,
{
    if a < b {
        lemma_time_sum_bounds(req, a, b - 1);
        assert(lap_rate(req, b - 1).time@ <= MAX_LAP_NANOS);
        assert((b - 1 - a) * (MAX_LAP_NANOS as int) + MAX_LAP_NANOS == (b - a) * (
        MAX_LAP_NANOS as int)) by (nonlinear_arith);
    } else {
        assert(time_sum(req, a, b) == 0);
        assert((b - a) * (MAX_LAP_NANOS as int) == 0) by (nonlinear_arith)
            requires
                b == a,
        ;
    }
}

/// The stint in progress started no later than the laps already run.
proof fn lemma_stint_start_bounds(req: StratRequest, i: int)
    requires
        i >= 0,
    ensures
        0 <= stint_start(req, i) <= i,
    decreases i,
{
    if i > 0 {
        lemma_stint_start_bounds(req, i - 1);
    }
}

/// First part of the termination measure of the planning walk: the laps
/// still allowed, or during the yellow phase of a timed race the yellow
/// laps still to run.
pub open spec fn laps_measure(req: StratRequest, i: int) -> int {
    match req.ends {
        EndsWith::Laps(l) => l - i,
        EndsWith::LapsOrTime(l, d) => l - i,
        EndsWith::Time(d) => if i < req.yellow_togo {
            req.yellow_togo - i
        } else {
            0
        },
    }
}

/// Second part of the termination measure: for a timed race, the time still
/// allowed; every green lap consumes at least one nanosecond of it.
pub open spec fn time_measure(req: StratRequest, tm: int) -> int {
    match req.ends {
        EndsWith::Time(d) => if d@ + 1 - tm >= 0 {
            d@ + 1 - tm
        } else {
            0
        },
        EndsWith::Laps(l) => 0,
        EndsWith::LapsOrTime(l, d) => 0,
    }
}

/// A witness for the plan-length property pins the plan length down.
proof fn lemma_plan_len_is(req: StratRequest, n: int)
    requires
        is_plan_len(req, n),
    ensures
        plan_len(req) == n,
{
    assert(exists|k: int| is_plan_len(req, k));
    let m = plan_len(req);
    assert(is_plan_len(req, m));
    if m < n {
        assert(keep_going(req, m));
        assert(false);
    } else if m > n {
        assert(keep_going(req, n));
        assert(false);
    }
}

// ---------------------------------------------------------------------------
// Pit-stop windows and fuel save, as recurrences over the stint list.
// ---------------------------------------------------------------------------

/// The green laps a full tank supports.
pub open spec fn full_stint_len(req: StratRequest) -> int {
    req.tank_size as int / req.green.fuel as int
}

/// The spare room left for pulling stops earlier, before stop `j` is
/// placed: it starts as the unused part of the last stint and each window
/// consumes some of it.
pub open spec fn ext_at(req: StratRequest, stints: Seq<Stint>, j: int) -> int
    decreases j,
{
    if j <= 0 {
        full_stint_len(req) - stints.last().laps
    } else {
        let prev = ext_at(req, stints, j - 1);
        let laps = stints[j - 1].laps as int;
        prev - (if prev < laps {
            prev
        } else {
            laps
        })
    }
}

/// The lap the `j`-th pit window opens at: stints so far, less the room
/// handed back by extending later stints.
pub open spec fn open_at(req: StratRequest, stints: Seq<Stint>, j: int) -> int
    decreases j,
{
    if j <= 0 {
        0
    } else {
        let prev = ext_at(req, stints, j - 1);
        let laps = stints[j - 1].laps as int;
        open_at(req, stints, j - 1) + laps - (if prev < laps {
            prev
        } else {
            laps
        })
    }
}

/// The lap the `j`-th pit window closes at: the laps of the stints before
/// it, where the tank runs out.
pub open spec fn close_at(stints: Seq<Stint>, j: int) -> int
    decreases j,
{
    if j <= 0 {
        0
    } else {
        close_at(stints, j - 1) + stints[j - 1].laps
    }
}

/// Total laps of a stint list.
pub open spec fn stints_laps_total(stints: Seq<Stint>) -> int {
    close_at(stints, stints.len() as int)
}

/// Total fuel of the first `j` stints.
pub open spec fn fuel_total_at(stints: Seq<Stint>, j: int) -> int
    decreases j,
{
    if j <= 0 {
        0
    } else {
        fuel_total_at(stints, j - 1) + stints[j - 1].fuel
    }
}

/// Total fuel of a stint list.
pub open spec fn stints_fuel_total(stints: Seq<Stint>) -> int {
    fuel_total_at(stints, stints.len() as int)
}

/// Total time of the first `j` stints, in nanoseconds.
pub open spec fn time_total_at(stints: Seq<Stint>, j: int) -> int
    decreases j,
{
    if j <= 0 {
        0
    } else {
        time_total_at(stints, j - 1) + stints[j - 1].time@
    }
}

/// Total time of a stint list, in nanoseconds.
pub open spec fn stints_time_total(stints: Seq<Stint>) -> int {
    time_total_at(stints, stints.len() as int)
}

/// The stop list that belongs to a stint list: one stop per stint but the
/// last, with the windows of the recurrence above.
pub open spec fn stops_match(req: StratRequest, stints: Seq<Stint>, stops: Seq<Pitstop>) -> bool {
    &&& stops.len() == stints.len() - 1
    &&& forall|j: int|
        0 <= j < stops.len() ==> stops[j].open == open_at(req, stints, j + 1) && stops[j].close
            == close_at(stints, j + 1)
}

/// The fuel saving that would drop the last stop: the last stint's fuel,
/// if it is under the allowed share (in per-mille) of the total; else zero.
pub open spec fn fuel_save_of(req: StratRequest, stints: Seq<Stint>) -> int {
    let total = stints_fuel_total(stints);
    let last = stints.last().fuel as int;
    if last * 1000 < total * req.max_fuel_save {
        last
    } else {
        0
    }
}

/// Everything the planner promises of a returned strategy: the stints
/// record exactly the laps of the plan's ranges, the stops follow the
/// window recurrence, the fuel saving follows its rule, the rates are the
/// request's, and the total laps are the plan length.
pub open spec fn strategy_matches(req: StratRequest, s: Strategy) -> bool {
    &&& s.stints@.len() == plan_ranges(req).len()
    &&& forall|j: int|
        0 <= j < s.stints@.len() ==> stint_matches(
            req,
            s.stints@[j],
            plan_ranges(req)[j].0,
            plan_ranges(req)[j].1,
        )
    &&& stops_match(req, s.stints@, s.stops@)
    &&& s.fuel_to_save == fuel_save_of(req, s.stints@)
    &&& s.green == req.green
    &&& s.yellow == req.yellow
    &&& stints_laps_total(s.stints@) == plan_len(req)
    &&& s.stints@.len() > 0
}

// ---------------------------------------------------------------------------
// Structure of the range partition.
// ---------------------------------------------------------------------------

/// Total laps of a range list.
pub open spec fn ranges_laps(rs: Seq<(int, int)>) -> int
    decreases rs.len(),
{
    if rs.len() == 0 {
        0
    } else {
        ranges_laps(rs.drop_last()) + (rs.last().1 - rs.last().0)
    }
}

/// The closed ranges chain from lap 0 to the start of the stint in
/// progress, each range non-empty except possibly the first.
proof fn lemma_ranges_structure(req: StratRequest, i: int)
    requires
        i >= 0,
    ensures
        ranges_laps(closed_ranges(req, i)) == stint_start(req, i),
        closed_ranges(req, i).len() == 0 ==> stint_start(req, i) == 0,
        closed_ranges(req, i).len() > 0 ==> closed_ranges(req, i)[0].0 == 0,
        closed_ranges(req, i).len() > 0 ==> closed_ranges(req, i).last().1 == stint_start(req, i),
        forall|k: int|
            0 <= k < closed_ranges(req, i).len() ==> 0 <= (#[trigger] closed_ranges(req, i)[k]).0
                <= closed_ranges(req, i)[k].1,
        forall|k: int|
            0 <= k < closed_ranges(req, i).len() - 1 ==> (#[trigger] closed_ranges(req, i)[k]).1
                == closed_ranges(req, i)[k + 1].0,
    decreases i,
{
    if i > 0 {
        lemma_ranges_structure(req, i - 1);
        lemma_stint_start_bounds(req, i - 1);
        if stop_before(req, i - 1) {
            let rs = closed_ranges(req, i);
            let prev = closed_ranges(req, i - 1);
            assert(rs.drop_last() =~= prev);
            assert(forall|k: int| 0 <= k < prev.len() ==> rs[k] == prev[k]);
        }
    }
}

/// Partial stint times are non-negative and grow with the prefix length.
proof fn lemma_time_total_mono(stints: Seq<Stint>, a: int, b: int)
    requires
        0 <= a <= b,
    ensures
        time_total_at(stints, a) <= time_total_at(stints, b),
    decreases b - a,
{
    if a < b {
        lemma_time_total_mono(stints, a, b - 1);
    }
}

/// Partial stint times are non-negative.
proof fn lemma_time_total_nonneg(stints: Seq<Stint>, j: int)
    requires
        j >= 0,
    ensures
        time_total_at(stints, j) >= 0,
    decreases j,
{
    if j > 0 {
        lemma_time_total_nonneg(stints, j - 1);
    }
}

impl Strategy {
    /// The lap counts of the stints, in order.
    pub fn laps(&self) -> (r: Vec<u64>)
        ensures
            r@.len() == self.stints@.len(),
            forall|j: int| 0 <= j < r@.len() ==> r@[j] == self.stints@[j].laps,
    {
        let mut r: Vec<u64> = Vec::new();
        let n = self.stints.len();
        let mut j: usize = 0;
        while j < n
            invariant
                n == self.stints@.len(),
                j <= n,
                r@.len() == j,
                forall|k: int| 0 <= k < j ==> r@[k] == self.stints@[k].laps,
            decreases n - j,
        {
            r.push(self.stints[j].laps);
            j = j + 1;
        }
        r
    }

    /// The laps the whole plan runs.
    pub fn total_laps(&self) -> (r: u64)
        requires
            stints_laps_total(self.stints@) <= u64::MAX,
        ensures
            r == stints_laps_total(self.stints@),
    {
        let n = self.stints.len();
        let mut r: u64 = 0;
        let mut j: usize = 0;
        while j < n
            invariant
                n == self.stints@.len(),
                j <= n,
                r as int == close_at(self.stints@, j as int),
                stints_laps_total(self.stints@) <= u64::MAX,
            decreases n - j,
        {
            proof {
                lemma_close_at_nonneg(self.stints@, j as int);
                lemma_close_at_mono(self.stints@, j as int + 1, n as int);
            }
            r = r + self.stints[j].laps;
            j = j + 1;
        }
        r
    }

    /// The fuel the whole plan uses, in milli-litres.
    pub fn total_fuel(&self) -> (r: u64)
        requires
            stints_fuel_total(self.stints@) <= u64::MAX,
        ensures
            r == stints_fuel_total(self.stints@),
    {
        let n = self.stints.len();
        let mut r: u64 = 0;
        let mut j: usize = 0;
        while j < n
            invariant
                n == self.stints@.len(),
                j <= n,
                r as int == fuel_total_at(self.stints@, j as int),
                stints_fuel_total(self.stints@) <= u64::MAX,
            decreases n - j,
        {
            proof {
                lemma_fuel_total_nonneg(self.stints@, j as int);
                lemma_fuel_total_mono(self.stints@, j as int + 1, n as int);
            }
            r = r + self.stints[j].fuel;
            j = j + 1;
        }
        r
    }

    /// The time the whole plan takes.
    pub fn total_time(&self) -> (r: TimeSpan)
        requires
            stints_time_total(self.stints@) < nano_limit(),
        ensures
            r@ == stints_time_total(self.stints@),
    {
        let n = self.stints.len();
        let mut r: TimeSpan = TimeSpan::zero();
        let mut j: usize = 0;
        while j < n
            invariant
                n == self.stints@.len(),
                j <= n,
                r@ == time_total_at(self.stints@, j as int),
                stints_time_total(self.stints@) < nano_limit(),
            decreases n - j,
        {
            proof {
                lemma_time_total_nonneg(self.stints@, j as int);
                lemma_time_total_mono(self.stints@, j as int + 1, n as int);
            }
            r = r.plus(self.stints[j].time);
            j = j + 1;
        }
        r
    }

    /// The per-lap fuel target that meets the planned saving, as the pair
    /// of the fuel to spend before the last stint, less the saving, and
    /// the laps to spend it over. The fuel part is signed: a saving
    /// larger than the fuel before the last stint gives a negative
    /// target. When no saving is planned, or the last stint is the whole
    /// plan, the target is zero over one lap.
    pub fn fuel_target(&self) -> (r: (i64, u64))
        requires
            stints_laps_total(self.stints@) <= u64::MAX,
            stints_fuel_total(self.stints@) <= i64::MAX,
            self.fuel_to_save <= i64::MAX,
        ensures
            ({
                let st = self.stints@;
                let laps_before = close_at(st, st.len() - 1);
                let fuel_before = fuel_total_at(st, st.len() - 1);
                if self.fuel_to_save > 0 && laps_before > 0 {
                    r.0 == fuel_before - self.fuel_to_save && r.1 == laps_before
                } else {
                    r.0 == 0 && r.1 == 1
                }
            }),
    {
        let ghost st = self.stints@;
        let n = self.stints.len();
        if n == 0 || self.fuel_to_save == 0 {
            return (0, 1);
        }
        let mut laps_before: u64 = 0;
        let mut fuel_before: u64 = 0;
        let mut j: usize = 0;
        while j < n - 1
            invariant
                st == self.stints@,
                n == st.len(),
                1 <= n,
                j <= n - 1,
                laps_before as int == close_at(st, j as int),
                fuel_before as int == fuel_total_at(st, j as int),
                stints_laps_total(st) <= u64::MAX,
                stints_fuel_total(st) <= i64::MAX,
            decreases n - 1 - j,
        {
            proof {
                lemma_close_at_nonneg(st, j as int);
                lemma_close_at_mono(st, j as int + 1, n as int);
                lemma_fuel_total_nonneg(st, j as int);
                lemma_fuel_total_mono(st, j as int + 1, n as int);
            }
            laps_before = laps_before + self.stints[j].laps;
            fuel_before = fuel_before + self.stints[j].fuel;
            j = j + 1;
        }
        proof {
            lemma_fuel_total_nonneg(st, n as int - 1);
            lemma_fuel_total_mono(st, n as int - 1, n as int);
        }
        if laps_before > 0 {
            let f: i64 = fuel_before as i64 - self.fuel_to_save as i64;
            (f, laps_before)
        } else {
            (0, 1)
        }
    }
}

/// Partial lap counts are non-negative.
proof fn lemma_close_at_nonneg(stints: Seq<Stint>, j: int)
    requires
        j >= 0,
    ensures
        close_at(stints, j) >= 0,
    decreases j,
{
    if j > 0 {
        lemma_close_at_nonneg(stints, j - 1);
    }
}

/// Partial lap counts grow with the prefix length.
proof fn lemma_close_at_mono(stints: Seq<Stint>, a: int, b: int)
    requires
        0 <= a <= b,
    ensures
        close_at(stints, a) <= close_at(stints, b),
    decreases b - a,
{
    if a < b {
        lemma_close_at_mono(stints, a, b - 1);
    }
}

/// Partial fuel totals are non-negative.
proof fn lemma_fuel_total_nonneg(stints: Seq<Stint>, j: int)
    requires
        j >= 0,
    ensures
        fuel_total_at(stints, j) >= 0,
    decreases j,
{
    if j > 0 {
        lemma_fuel_total_nonneg(stints, j - 1);
    }
}

/// Partial fuel totals grow with the prefix length.
proof fn lemma_fuel_total_mono(stints: Seq<Stint>, a: int, b: int)
    requires
        0 <= a <= b,
    ensures
        fuel_total_at(stints, a) <= fuel_total_at(stints, b),
    decreases b - a,
{
    if a < b {
        lemma_fuel_total_mono(stints, a, b - 1);
    }
}

/// Adjacent range sums concatenate.
proof fn lemma_fuel_sum_concat(req: StratRequest, a: int, b: int, c: int)
    requires
        a <= b <= c,
    ensures
        fuel_sum(req, a, b) + fuel_sum(req, b, c) == fuel_sum(req, a, c),
    decreases c - b,
{
    if b < c {
        lemma_fuel_sum_concat(req, a, b, c - 1);
    }
}

/// Adjacent range time sums concatenate.
proof fn lemma_time_sum_concat(req: StratRequest, a: int, b: int, c: int)
    requires
        a <= b <= c,
    ensures
        time_sum(req, a, b) + time_sum(req, b, c) == time_sum(req, a, c),
    decreases c - b,
{
    if b < c {
        lemma_time_sum_concat(req, a, b, c - 1);
    }
}

/// For a stint list that records a chain of lap ranges starting at lap 0,
/// the partial lap and fuel totals read off the chain: after `j` stints
/// the laps run reach the `j`-th range's end and the fuel spent is the
/// predicted fuel of laps up to there.
proof fn lemma_prefix_totals(req: StratRequest, stints: Seq<Stint>, rs: Seq<(int, int)>, j: int)
    requires
        stints.len() == rs.len(),
        rs.len() >= 1,
        forall|k: int|
            0 <= k < rs.len() ==> stint_matches(req, stints[k], (#[trigger] rs[k]).0, rs[k].1),
        rs[0].0 == 0,
        forall|k: int| 0 <= k < rs.len() ==> (#[trigger] rs[k]).0 <= rs[k].1,
        forall|k: int| 0 <= k < rs.len() - 1 ==> (#[trigger] rs[k]).1 == rs[k + 1].0,
        0 <= j <= rs.len(),
    ensures
        close_at(stints, j) == if j == 0 {
            0int
        } else {
            rs[j - 1].1
        },
        fuel_total_at(stints, j) == fuel_sum(
            req,
            0,
            if j == 0 {
                0int
            } else {
                rs[j - 1].1
            },
        ),
        time_total_at(stints, j) == time_sum(
            req,
            0,
            if j == 0 {
                0int
            } else {
                rs[j - 1].1
            },
        ),
    decreases j,
{
    if j > 0 {
        lemma_prefix_totals(req, stints, rs, j - 1);
        let lo = rs[j - 1].0;
        let hi = rs[j - 1].1;
        if j == 1 {
            assert(lo == 0);
        } else {
            assert(rs[j - 2].1 == lo);
        }
        lemma_close_at_nonneg(stints, j - 1);
        assert(close_at(stints, j - 1) == lo);
        assert(0 <= lo <= hi);
        lemma_fuel_sum_concat(req, 0, lo, hi);
        lemma_time_sum_concat(req, 0, lo, hi);
    }
}

/// No lap strictly inside the stint in progress is a stop.
proof fn lemma_no_stop_inside(req: StratRequest, i: int)
    requires
        i >= 0,
    ensures
        forall|m: int| stint_start(req, i) < m < i ==> !stop_before(req, m),
    decreases i,
{
    if i > 0 {
        lemma_no_stop_inside(req, i - 1);
    }
}

/// When the stint in progress did not start at lap 0, it started at a
/// stop.
proof fn lemma_stint_start_is_stop(req: StratRequest, i: int)
    requires
        i >= 0,
        stint_start(req, i) > 0 || (i > 0 && stop_before(req, 0)) || (exists|m: int|
            0 <= m < i && stop_before(req, m)),
    ensures
        stint_start(req, i) > 0 ==> stop_before(req, stint_start(req, i)),
    decreases i,
{
    if i > 0 && !stop_before(req, i - 1) {
        lemma_stint_start_is_stop(req, i - 1);
    }
}

/// Every closed range ends at a stop, and no lap strictly inside any
/// closed range is a stop.
proof fn lemma_ranges_stops(req: StratRequest, i: int)
    requires
        i >= 0,
    ensures
        forall|k: int|
            0 <= k < closed_ranges(req, i).len() ==> stop_before(
                req,
                (#[trigger] closed_ranges(req, i)[k]).1,
            ),
        forall|k: int, m: int|
            #![trigger closed_ranges(req, i)[k], stop_before(req, m)]
            0 <= k < closed_ranges(req, i).len() && closed_ranges(req, i)[k].0 < m
                < closed_ranges(req, i)[k].1 ==> !stop_before(req, m),
    decreases i,
{
    if i > 0 {
        lemma_ranges_stops(req, i - 1);
        let rs = closed_ranges(req, i);
        let prev = closed_ranges(req, i - 1);
        if stop_before(req, i - 1) {
            lemma_no_stop_inside(req, i - 1);
            assert(rs == prev.push((stint_start(req, i - 1), i - 1)));
            assert(rs[rs.len() - 1] == (stint_start(req, i - 1), i - 1));
            assert forall|k: int| 0 <= k < rs.len() implies stop_before(
                req,
                (#[trigger] rs[k]).1,
            ) by {
                if k < prev.len() {
                    assert(rs[k] == prev[k]);
                } else {
                    assert(rs[k].1 == i - 1);
                }
            }
            assert forall|k: int, m: int|
                #![trigger rs[k], stop_before(req, m)]
                0 <= k < rs.len() && rs[k].0 < m < rs[k].1 implies !stop_before(req, m) by {
                if k < prev.len() {
                    assert(rs[k] == prev[k]);
                    assert(prev[k].0 < m < prev[k].1);
                } else {
                    assert(rs[k] == (stint_start(req, i - 1), i - 1));
                    assert(stint_start(req, i - 1) < m < i - 1);
                }
            }
        } else {
            assert(rs == prev);
            assert forall|k: int| 0 <= k < rs.len() implies stop_before(
                req,
                (#[trigger] rs[k]).1,
            ) by {
                assert(rs[k] == prev[k]);
            }
            assert forall|k: int, m: int|
                #![trigger rs[k], stop_before(req, m)]
                0 <= k < rs.len() && rs[k].0 < m < rs[k].1 implies !stop_before(req, m) by {
                assert(rs[k] == prev[k]);
                assert(prev[k].0 < m < prev[k].1);
            }
        }
    }
}

/// Inside one stint the fuel spent so far is exactly what the refill put
/// in less what remains.
proof fn lemma_stint_fuel(req: StratRequest, a: int, k: int)
    requires
        0 <= a < k,
        stop_before(req, a),
        forall|m: int| a < m < k ==> !stop_before(req, m),
    ensures
        fuel_sum(req, a, k) == req.tank_size - fuel_at(req, k),
    decreases k - a,
{
    if k == a + 1 {
        assert(fuel_at(req, k) == req.tank_size - lap_rate(req, a).fuel);
        assert(fuel_sum(req, a, k) == fuel_sum(req, a, a) + lap_rate(req, a).fuel);
        assert(fuel_sum(req, a, a) == 0);
    } else {
        lemma_stint_fuel(req, a, k - 1);
        assert(!stop_before(req, k - 1));
        assert(fuel_at(req, k) == fuel_at(req, k - 1) - lap_rate(req, k - 1).fuel);
        assert(fuel_sum(req, a, k) == fuel_sum(req, a, k - 1) + lap_rate(req, k - 1).fuel);
    }
}

/// The plan length exists: the race-end test cannot pass forever.
proof fn lemma_plan_len_exists_from(req: StratRequest, n: int)
    requires
        req_wf(req),
        0 <= n,
        forall|j: int| 0 <= j < n ==> keep_going(req, j),
    ensures
        is_plan_len(req, plan_len(req)),
    decreases MAX_PLAN_LAPS - n,
{
    if keep_going(req, n) {
        lemma_keep_going_bound(req, n);
        lemma_plan_len_exists_from(req, n + 1);
    } else {
        assert(is_plan_len(req, n));
        lemma_plan_len_is(req, n);
    }
}

/// The window recurrence keeps its spare room between zero and its first
/// value, and each window's width is the room consumed so far.
proof fn lemma_ext_invariant(req: StratRequest, stints: Seq<Stint>, j: int)
    requires
        j >= 0,
        ext_at(req, stints, 0) >= 0,
    ensures
        0 <= ext_at(req, stints, j) <= ext_at(req, stints, 0),
        close_at(stints, j) - open_at(req, stints, j) == ext_at(req, stints, 0) - ext_at(
            req,
            stints,
            j,
        ),
    decreases j,
{
    if j > 0 {
        lemma_ext_invariant(req, stints, j - 1);
    }
}

// ---------------------------------------------------------------------------
// The planner's laws. Each is stated over the specification predicate that
// `compute` ensures of its result.
// ---------------------------------------------------------------------------

/// A strategy plans exactly one stop fewer than it has stints.
pub proof fn lemma_stop_count(req: StratRequest, s: Strategy)
    requires
        strategy_matches(req, s),
    ensures
        s.stops@.len() == s.stints@.len() - 1,
{
}

/// The laps of a strategy's stints add up to the number of laps the
/// race-end walk consumes.
pub proof fn lemma_total_laps_is_plan_len(req: StratRequest, s: Strategy)
    requires
        strategy_matches(req, s),
    ensures
        stints_laps_total(s.stints@) == plan_len(req),
{
}

/// The number of laps the planner consumes does not depend on the fuel
/// state: two requests with the same race end, the same yellow laps to go
/// and the same lap times plan the same lap count, whatever fuel they
/// start from.
pub proof fn lemma_plan_len_ignores_fuel(r1: StratRequest, r2: StratRequest)
    requires
        req_wf(r1),
        r1.ends == r2.ends,
        r1.yellow_togo == r2.yellow_togo,
        r1.green.time@ == r2.green.time@,
        r1.yellow.time@ == r2.yellow.time@,
    ensures
        plan_len(r1) == plan_len(r2),
{
    assert forall|n: int| 0 <= n implies acc_time(r1, n) == acc_time(r2, n) by {
        lemma_acc_time_eq(r1, r2, n);
    }
    assert forall|n: int| 0 <= n implies keep_going(r1, n) == keep_going(r2, n) by {
        lemma_acc_time_eq(r1, r2, n);
    }
    lemma_plan_len_exists_from(r1, 0);
    let n1 = plan_len(r1);
    assert(is_plan_len(r2, n1));
    lemma_plan_len_is(r2, n1);
}

/// Requests with equal lap times accumulate equal times.
proof fn lemma_acc_time_eq(r1: StratRequest, r2: StratRequest, n: int)
    requires
        r1.yellow_togo == r2.yellow_togo,
        r1.green.time@ == r2.green.time@,
        r1.yellow.time@ == r2.yellow.time@,
    ensures
        acc_time(r1, n) == acc_time(r2, n),
    decreases n,
{
    if n > 0 {
        lemma_acc_time_eq(r1, r2, n - 1);
    }
}

/// One stint that starts at a stop spends at most a tank of fuel, given
/// that each single lap plus the reserve fits the tank.
proof fn lemma_one_stint_fits(req: StratRequest, a: int, b: int)
    requires
        req_wf(req),
        req.green.fuel + req.min_fuel <= req.tank_size,
        req.yellow_togo > 0 ==> req.yellow.fuel + req.min_fuel <= req.tank_size,
        0 <= a < b,
        stop_before(req, a),
        forall|m: int| a < m < b ==> !stop_before(req, m),
    ensures
        fuel_sum(req, a, b) <= req.tank_size,
{
    lemma_stint_fuel(req, a, b);
    if b == a + 1 {
        assert(fuel_at(req, b) == req.tank_size - lap_rate(req, a).fuel);
        if a < req.yellow_togo {
            assert(lap_rate(req, a) == req.yellow);
        } else {
            assert(lap_rate(req, a) == req.green);
        }
    } else {
        assert(!stop_before(req, b - 1));
        assert(fuel_at(req, b) == fuel_at(req, b - 1) - lap_rate(req, b - 1).fuel);
    }
    assert(fuel_at(req, b) >= 0);
}

/// A plan range after the first starts at a stop and holds no stop
/// inside.
proof fn lemma_plan_range_props(req: StratRequest, j: int)
    requires
        req_wf(req),
        is_plan_len(req, plan_len(req)),
        1 <= j < plan_ranges(req).len(),
    ensures
        0 <= plan_ranges(req)[j].0 <= plan_ranges(req)[j].1,
        plan_ranges(req)[j].0 < plan_ranges(req)[j].1 ==> stop_before(req, plan_ranges(req)[j].0),
        forall|m: int|
            plan_ranges(req)[j].0 < m < plan_ranges(req)[j].1 ==> !stop_before(req, m),
{
    let n = plan_len(req);
    let rs = plan_ranges(req);
    assert(n >= 0);
    lemma_ranges_structure(req, n);
    lemma_ranges_stops(req, n);
    lemma_stint_start_bounds(req, n);
    lemma_no_stop_inside(req, n);
    let closed = closed_ranges(req, n);
    let start = stint_start(req, n);
    let a = rs[j].0;
    let b = rs[j].1;
    if j < closed.len() {
        // A closed range: it starts where the previous closed range
        // ended, at a stop, and holds no stop inside.
        assert(rs[j] == closed[j]);
        assert(closed[j - 1].1 == closed[j].0);
        assert(stop_before(req, closed[j - 1].1));
        assert forall|m: int| a < m < b implies !stop_before(req, m) by {
            assert(closed[j].0 < m < closed[j].1);
        }
    } else {
        // The trailing range: it starts where the last closed range
        // ended, at a stop, and the walk put no stop after that.
        assert(n > start);
        assert(rs == closed.push((start, n)));
        assert(rs[j] == (start, n));
        assert(closed.len() == j >= 1);
        assert(closed.last().1 == start);
        assert(stop_before(req, closed.last().1));
        assert(forall|m: int| a < m < b ==> !stop_before(req, m));
    }
}

/// Every stint after the first starts from a full tank, so its fuel fits
/// the tank, as long as one lap plus the reserve does: the law does not
/// hold when a single lap can use more than the tank holds.
pub proof fn lemma_stint_fuel_fits_tank(req: StratRequest, s: Strategy)
    requires
        req_wf(req),
        strategy_matches(req, s),
        req.green.fuel + req.min_fuel <= req.tank_size,
        req.yellow_togo > 0 ==> req.yellow.fuel + req.min_fuel <= req.tank_size,
    ensures
        forall|j: int| 1 <= j < s.stints@.len() ==> (#[trigger] s.stints@[j]).fuel
            <= req.tank_size,
{
    lemma_plan_len_exists_from(req, 0);
    assert forall|j: int| 1 <= j < s.stints@.len() implies (#[trigger] s.stints@[j]).fuel
        <= req.tank_size by {
        let rs = plan_ranges(req);
        let a = rs[j].0;
        let b = rs[j].1;
        assert(is_plan_len(req, plan_len(req)));
        assert(s.stints@.len() == rs.len());
        assert(stint_matches(req, s.stints@[j], a, b));
        lemma_plan_range_props(req, j);
        if a < b {
            lemma_one_stint_fits(req, a, b);
        } else {
            assert(fuel_sum(req, a, b) == 0);
        }
    }
}

/// Pit windows never move backwards: each later stop opens and closes no
/// earlier than the one before it.
pub proof fn lemma_windows_monotone(req: StratRequest, s: Strategy)
    requires
        strategy_matches(req, s),
    ensures
        forall|j: int|
            0 <= j < s.stops@.len() - 1 ==> (#[trigger] s.stops@[j]).open <= s.stops@[j + 1].open
                && s.stops@[j].close <= s.stops@[j + 1].close,
{
    assert forall|j: int|
        0 <= j < s.stops@.len() - 1 implies (#[trigger] s.stops@[j]).open <= s.stops@[j + 1].open
        && s.stops@[j].close <= s.stops@[j + 1].close by {
        let st = s.stints@;
        assert(s.stops@[j].open == open_at(req, st, j + 1));
        assert(s.stops@[j + 1].open == open_at(req, st, j + 2));
        assert(s.stops@[j].close == close_at(st, j + 1));
        assert(s.stops@[j + 1].close == close_at(st, j + 2));
    }
}

/// Every pit window is well formed and no wider than the spare room of
/// the last stint. This needs the last stint to fit inside a full green
/// stint, which holds whenever the race ahead is not mostly caution laps.
pub proof fn lemma_window_shape(req: StratRequest, s: Strategy)
    requires
        strategy_matches(req, s),
        s.stints@.last().laps <= full_stint_len(req),
    ensures
        forall|j: int|
            0 <= j < s.stops@.len() ==> (#[trigger] s.stops@[j]).open <= s.stops@[j].close
                && s.stops@[j].close - s.stops@[j].open <= full_stint_len(req)
                - s.stints@.last().laps,
{
    let st = s.stints@;
    assert forall|j: int|
        0 <= j < s.stops@.len() implies (#[trigger] s.stops@[j]).open <= s.stops@[j].close
        && s.stops@[j].close - s.stops@[j].open <= full_stint_len(req)
        - s.stints@.last().laps by {
        lemma_ext_invariant(req, st, j + 1);
    }
}

/// The planned fuel saving is either zero or strictly under the allowed
/// per-mille share of the plan's total fuel.
pub proof fn lemma_fuel_save_share(req: StratRequest, s: Strategy)
    requires
        strategy_matches(req, s),
    ensures
        s.fuel_to_save == 0 || (s.fuel_to_save as int) * 1000 < stints_fuel_total(s.stints@)
            * req.max_fuel_save,
{
}

/// When the plan's total fuel fits in one tank, the planned saving is
/// either zero or strictly under the allowed share of the tank. For a
/// longer race the bound over the total fuel above is the sharp one.
pub proof fn lemma_fuel_save_tank_share(req: StratRequest, s: Strategy)
    requires
        strategy_matches(req, s),
        stints_fuel_total(s.stints@) <= req.tank_size,
    ensures
        s.fuel_to_save == 0 || (s.fuel_to_save as int) * 1000 < (req.tank_size as int)
            * req.max_fuel_save,
{
    if s.fuel_to_save != 0 {
        assert(stints_fuel_total(s.stints@) * req.max_fuel_save <= (req.tank_size as int)
            * req.max_fuel_save) by (nonlinear_arith)
            requires
                stints_fuel_total(s.stints@) <= req.tank_size as int,
                req.max_fuel_save >= 0,
        ;
    }
}

/// For every well-formed request the plan length is defined: it is the
/// unique lap count whose race-end test fails first. Callers use this to
/// conclude that the planner returns a strategy exactly when that count
/// is positive.
pub proof fn lemma_plan_len_defined(req: StratRequest)
    requires
        req_wf(req),
    ensures
        is_plan_len(req, plan_len(req)),
{
    lemma_plan_len_exists_from(req, 0);
}

/// The totals of a strategy the planner returned stay within the
/// planner's bounds: the laps fit the lap cap and the fuel and time sums
/// fit their machine ranges.
pub proof fn lemma_strategy_totals(req: StratRequest, s: Strategy)
    requires
        req_wf(req),
        strategy_matches(req, s),
    ensures
        0 <= stints_laps_total(s.stints@) <= MAX_PLAN_LAPS,
        0 <= stints_fuel_total(s.stints@) <= (MAX_PLAN_LAPS as int) * (MAX_FUEL_MILLI as int),
        0 <= stints_time_total(s.stints@) <= (MAX_PLAN_LAPS as int) * (MAX_LAP_NANOS as int),
        0 <= fuel_save_of(req, s.stints@) <= stints_fuel_total(s.stints@),
{
    let n = plan_len(req);
    let rs = plan_ranges(req);
    lemma_plan_len_exists_from(req, 0);
    if n > 0 {
        lemma_keep_going_bound(req, n - 1);
    }
    lemma_ranges_structure(req, n);
    lemma_stint_start_bounds(req, n);
    let start = stint_start(req, n);
    if n > start {
        let closed = closed_ranges(req, n);
        assert(rs == closed.push((start, n)));
        assert(rs.drop_last() =~= closed);
        assert(forall|k: int| 0 <= k < closed.len() ==> rs[k] == closed[k]);
    }
    assert(rs.len() >= 1);
    assert(rs[0].0 == 0);
    assert(rs[rs.len() - 1].1 == n);
    assert(forall|k: int| 0 <= k < rs.len() ==> (#[trigger] rs[k]).0 <= rs[k].1);
    assert(forall|k: int| 0 <= k < rs.len() - 1 ==> (#[trigger] rs[k]).1 == rs[k + 1].0);
    lemma_prefix_totals(req, s.stints@, rs, rs.len() as int);
    assert(stints_fuel_total(s.stints@) == fuel_sum(req, 0, n));
    assert(stints_time_total(s.stints@) == time_sum(req, 0, n));
    lemma_fuel_sum_bounds(req, 0, n);
    lemma_time_sum_bounds(req, 0, n);
    assert(n * (MAX_FUEL_MILLI as int) <= (MAX_PLAN_LAPS as int) * (MAX_FUEL_MILLI as int))
        by (nonlinear_arith)
        requires
            0 <= n <= MAX_PLAN_LAPS,
    ;
    assert(n * (MAX_LAP_NANOS as int) <= (MAX_PLAN_LAPS as int) * (MAX_LAP_NANOS as int))
        by (nonlinear_arith)
        requires
            0 <= n <= MAX_PLAN_LAPS,
    ;
    // The planned saving is either zero or the last stint's fuel, which
    // the total contains.
    lemma_fuel_total_nonneg(s.stints@, s.stints@.len() - 1);
    assert(s.stints@.last().fuel == fuel_total_at(s.stints@, s.stints@.len() as int)
        - fuel_total_at(s.stints@, s.stints@.len() - 1));
}

impl StratRequest {
    /// Whether the planner would run lap `i`, given the time spent in the
    /// laps before it.
    fn keep_going_step(&self, i: u64, tm: &TimeSpan) -> (b: bool)
        requires
            tm@ == acc_time(*self, i as int),
        ensures
            b == keep_going(*self, i as int),
    {
        match self.ends {
            EndsWith::Laps(l) => l > 0 && i < l as u64,
            EndsWith::Time(d) => tm.le(&d),
            EndsWith::LapsOrTime(l, d) => (l > 0 && i < l as u64) && tm.le(&d),
        }
    }

    /// Walks the predicted laps of the rest of the race and cuts them into
    /// stints at each refill.
    fn stints(&self) -> (v: Vec<Stint>)
        requires
            req_wf(*self),
        ensures
            is_plan_len(*self, plan_len(*self)),
            plan_len(*self) <= MAX_PLAN_LAPS,
            v@.len() == plan_ranges(*self).len(),
            forall|j: int|
                0 <= j < v@.len() ==> stint_matches(
                    *self,
                    v@[j],
                    plan_ranges(*self)[j].0,
                    plan_ranges(*self)[j].1,
                ),
            (v@.len() == 0) <==> (plan_len(*self) == 0),
    {
        let ghost req = *self;
        let mut v: Vec<Stint> = Vec::new();
        let mut cur: Stint = Stint::new();
        let mut f: i64 = self.fuel_left as i64;
        let mut i: u64 = 0;
        let mut tm: TimeSpan = TimeSpan::zero();
        let ghost mut start: int = 0;
        loop
            invariant
                req == *self,
                req_wf(req),
                i <= MAX_PLAN_LAPS,
                forall|j: int| 0 <= j < i ==> keep_going(req, j),
                tm@ == acc_time(req, i as int),
                f as int == fuel_at(req, i as int),
                start == stint_start(req, i as int),
                0 <= start <= i,
                cur.laps == i - start,
                cur.fuel == fuel_sum(req, start, i as int),
                cur.time@ == time_sum(req, start, i as int),
                v@.len() == closed_ranges(req, i as int).len(),
                forall|j: int|
                    0 <= j < v@.len() ==> stint_matches(
                        req,
                        v@[j],
                        closed_ranges(req, i as int)[j].0,
                        closed_ranges(req, i as int)[j].1,
                    ),
            ensures
                !keep_going(req, i as int),
            decreases laps_measure(req, i as int), time_measure(req, tm@),
        {
            let go = self.keep_going_step(i, &tm);
            if !go {
                break ;
            }
            let ghost entry_i = i as int;
            let ghost entry_tm = tm@;
            proof {
                lemma_keep_going_bound(req, i as int);
                lemma_fuel_at_bounds(req, i as int);
            }
            let r: Rate = if i < self.yellow_togo as u64 {
                self.yellow
            } else {
                self.green
            };
            proof {
                assert(r == lap_rate(req, i as int));
            }
            let need: u64 = r.fuel + self.min_fuel;
            let ghost old_ranges = closed_ranges(req, i as int);
            if f < need as i64 {
                proof {
                    assert(stop_before(req, i as int));
                }
                v.push(cur);
                cur = Stint::new();
                f = self.tank_size as i64;
                proof {
                    start = i as int;
                }
            } else {
                proof {
                    assert(!stop_before(req, i as int));
                }
            }
            proof {
                lemma_fuel_sum_bounds(req, start, i as int);
                lemma_time_sum_bounds(req, start, i as int);
                lemma_acc_time_bound(req, i as int);
                assert((i - start) * (MAX_FUEL_MILLI as int) <= MAX_PLAN_LAPS * (
                MAX_FUEL_MILLI as int)) by (nonlinear_arith)
                    requires
                        0 <= i - start <= MAX_PLAN_LAPS,
                ;
                assert((i - start) * (MAX_LAP_NANOS as int) <= MAX_PLAN_LAPS * (
                MAX_LAP_NANOS as int)) by (nonlinear_arith)
                    requires
                        0 <= i - start <= MAX_PLAN_LAPS,
                ;
                assert(i * (MAX_LAP_NANOS as int) <= MAX_PLAN_LAPS * (MAX_LAP_NANOS as int))
                    by (nonlinear_arith)
                    requires
                        0 <= i as int <= MAX_PLAN_LAPS,
                ;
            }
            cur.add(&r);
            f = f - r.fuel as i64;
            tm = tm.plus(r.time);
            i = i + 1;
            proof {
                assert(keep_going(req, entry_i));
                match req.ends {
                    EndsWith::Laps(l) => {
                        assert(laps_measure(req, i as int) < laps_measure(req, entry_i));
                    },
                    EndsWith::LapsOrTime(l, d) => {
                        assert(laps_measure(req, i as int) < laps_measure(req, entry_i));
                    },
                    EndsWith::Time(d) => {
                        if entry_i < req.yellow_togo {
                            assert(laps_measure(req, i as int) < laps_measure(req, entry_i));
                        } else {
                            assert(lap_rate(req, entry_i) == req.green);
                            assert(laps_measure(req, i as int) == laps_measure(req, entry_i));
                            assert(tm@ == entry_tm + req.green.time@);
                            assert(time_measure(req, entry_tm) >= 1);
                            assert(time_measure(req, tm@) < time_measure(req, entry_tm));
                        }
                    },
                }
            }
        }
        proof {
            assert(!keep_going(req, i as int));
            assert(is_plan_len(req, i as int));
            lemma_plan_len_is(req, i as int);
            if i > 0 {
                lemma_stint_start_bounds(req, i as int - 1);
                assert(stint_start(req, i as int) <= i - 1);
            }
        }
        if cur.laps > 0 {
            v.push(cur);
        }
        proof {
            if i as int > stint_start(req, i as int) {
                assert(plan_ranges(req) == closed_ranges(req, i as int).push(
                    (stint_start(req, i as int), i as int),
                ));
            } else {
                assert(plan_ranges(req) == closed_ranges(req, i as int));
            }
            if plan_len(req) == 0 {
                assert(closed_ranges(req, 0) =~= Seq::<(int, int)>::empty());
                assert(v@.len() == 0);
            } else {
                assert(v@.len() > 0);
            }
        }
        v
    }

    /// Back-propagates the pit windows: each stop may come earlier by as
    /// much of the last stint's spare room as its own stint can hand over.
    fn stops(&self, stints: &Vec<Stint>) -> (v: Vec<Pitstop>)
        requires
            req_wf(*self),
            stints@.len() >= 1,
            stints_laps_total(stints@) <= MAX_PLAN_LAPS,
        ensures
            stops_match(*self, stints@, v@),
    {
        let ghost req = *self;
        let ghost s = stints@;
        let ghost total = stints_laps_total(s);
        let ghost ext0 = ext_at(req, s, 0);
        let n = stints.len();
        let full: u64 = self.tank_size / self.green.fuel;
        let last_laps = stints[n - 1].laps;
        proof {
            lemma_close_at_nonneg(s, n as int - 1);
            lemma_close_at_mono(s, n as int - 1, n as int);
            assert(last_laps <= total);
        }
        let mut open: i64 = 0;
        let mut close: i64 = 0;
        let mut ext: i64 = full as i64 - last_laps as i64;
        let mut v: Vec<Pitstop> = Vec::new();
        let mut j: usize = 0;
        while j < n - 1
            invariant
                req == *self,
                s == stints@,
                req_wf(req),
                n == s.len(),
                1 <= n,
                total == stints_laps_total(s),
                total <= MAX_PLAN_LAPS,
                last_laps == s[n - 1].laps,
                last_laps <= total,
                full == full_stint_len(req),
                0 <= full <= MAX_FUEL_MILLI,
                ext0 == full - last_laps,
                j <= n - 1,
                open as int == open_at(req, s, j as int),
                close as int == close_at(s, j as int),
                ext as int == ext_at(req, s, j as int),
                0 <= open,
                0 <= close,
                ext0 >= 0 ==> 0 <= ext <= ext0,
                ext0 < 0 ==> (j == 0 && ext == ext0) || (j >= 1 && ext == 0),
                open as int == close + ext - ext0,
                v@.len() == j,
                forall|k: int|
                    0 <= k < j ==> (#[trigger] v@[k]).open == open_at(req, s, k + 1) && v@[k].close
                        == close_at(s, k + 1),
            decreases n - 1 - j,
        {
            let laps_j: i64 = stints[j].laps as i64;
            proof {
                lemma_close_at_nonneg(s, j as int);
                lemma_close_at_mono(s, j as int + 1, n as int);
                assert(close_at(s, j as int + 1) == close + laps_j);
                assert(close + laps_j <= total);
            }
            let w: i64 = if ext < laps_j {
                ext
            } else {
                laps_j
            };
            open = open + laps_j - w;
            close = close + laps_j;
            proof {
                lemma_close_at_mono(s, j as int + 1, n as int - 1);
                assert(close_at(s, n as int - 1) + last_laps == total);
                if ext0 < 0 {
                    assert(open as int == close - ext0 + (ext - w));
                    assert(open <= total);
                } else {
                    assert(open <= close);
                }
            }
            v.push(Pitstop::new(open as i32, close as i32));
            ext = ext - w;
            j = j + 1;
        }
        v
    }

    /// The fuel saving that would drop the last stop: the last stint's
    /// fuel, if it is under the allowed per-mille share of the total.
    fn fuel_save(&self, stints: &Vec<Stint>) -> (r: u64)
        requires
            req_wf(*self),
            stints@.len() >= 1,
            stints_fuel_total(stints@) <= u64::MAX,
        ensures
            r == fuel_save_of(*self, stints@),
    {
        let ghost s = stints@;
        let n = stints.len();
        let mut total: u64 = 0;
        let mut j: usize = 0;
        while j < n
            invariant
                s == stints@,
                n == s.len(),
                j <= n,
                total as int == fuel_total_at(s, j as int),
                stints_fuel_total(s) <= u64::MAX,
            decreases n - j,
        {
            proof {
                lemma_fuel_total_nonneg(s, j as int);
                lemma_fuel_total_mono(s, j as int + 1, n as int);
            }
            total = total + stints[j].fuel;
            j = j + 1;
        }
        let last = stints[n - 1].fuel;
        proof {
            assert((total as int) * (self.max_fuel_save as int) <= 0xffff_ffff_ffff_ffff
                * 0xffff_ffff) by (nonlinear_arith)
                requires
                    0 <= total <= 0xffff_ffff_ffff_ffff,
                    0 <= self.max_fuel_save <= 0xffff_ffff,
            ;
        }
        if (last as u128) * 1000 < (total as u128) * (self.max_fuel_save as u128) {
            last
        } else {
            0
        }
    }

    /// Computes the whole strategy, or nothing when no lap remains to run.
    ///
    /// The base plan runs the tank dry repeatedly until the race ends; the
    /// pit windows then widen backwards by the spare room in the last
    /// stint, and the fuel-save amount says what saving would drop the
    /// last stop.
    pub fn compute(&self) -> (r: Option<Strategy>)
        requires
            req_wf(*self),
        ensures
            (r is Some) <==> plan_len(*self) > 0,
            r is Some ==> strategy_matches(*self, r->Some_0),
    {
        let ghost req = *self;
        let stints = self.stints();
        if stints.len() == 0 {
            return None;
        }
        let ghost n = plan_len(req);
        let ghost rs = plan_ranges(req);
        proof {
            lemma_ranges_structure(req, n);
            lemma_stint_start_bounds(req, n);
            let start = stint_start(req, n);
            if n > start {
                let closed = closed_ranges(req, n);
                assert(rs == closed.push((start, n)));
                assert(rs.drop_last() =~= closed);
                assert(forall|k: int| 0 <= k < closed.len() ==> rs[k] == closed[k]);
                assert(rs[0].0 == 0);
            }
            assert(rs.len() >= 1);
            assert(rs[0].0 == 0);
            assert(rs[rs.len() - 1].1 == n);
            assert(forall|k: int| 0 <= k < rs.len() ==> (#[trigger] rs[k]).0 <= rs[k].1);
            assert(forall|k: int| 0 <= k < rs.len() - 1 ==> (#[trigger] rs[k]).1 == rs[k + 1].0);
            lemma_prefix_totals(req, stints@, rs, rs.len() as int);
            assert(stints_laps_total(stints@) == n);
            assert(stints_fuel_total(stints@) == fuel_sum(req, 0, n));
            lemma_fuel_sum_bounds(req, 0, n);
            assert(n * (MAX_FUEL_MILLI as int) <= 0x7fff_ffff * 0x4000_0000) by (nonlinear_arith)
                requires
                    0 <= n <= 0x7fff_ffff,
            ;
        }
        let stops = self.stops(&stints);
        let save = self.fuel_save(&stints);
        Some(
            Strategy {
                fuel_to_save: save,
                stops,
                stints,
                green: self.green,
                yellow: self.yellow,
            },
        )
    }
}

} // verus!
