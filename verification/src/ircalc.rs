//! The live-session estimator: it consumes one telemetry frame per tick,
//! detects lap completion, pit entry, session resets and race phase
//! changes, keeps the lap history up to date, asks the planner for a
//! strategy, and writes an estimation snapshot for the dashboard.
//!
//! All quantities arrive as plain integers: times in microseconds, lap
//! progress in millionths of a lap, fuel in milli-litres, temperatures in
//! milli-degrees. The adapter that reads the simulator's shared memory
//! converts its raw values to this form outside the library.

use crate::history::lap_wf;
use crate::history::session_wf;
use crate::history::History;
use crate::history::RaceSession;
use crate::history::MAX_LAP_AVG_NANOS;
use crate::history::MAX_SESSION_LAPS;
use crate::strat::EndsWith;
use crate::strat::Lap;
use crate::strat::LapState;
use crate::strat::Pitstop;
use crate::strat::Rate;
use crate::strat::StratRequest;
use crate::strat::Strategy;
use crate::strat::MAX_FUEL_MILLI;
use crate::telemetry::Flags;
use crate::telemetry::PitCommandMode;
use crate::telemetry::SessionState;
use crate::telemetry::TrackLocation;
use crate::telemetry::FLAG_CAUTION;
use crate::telemetry::FLAG_CAUTION_WAVING;
use crate::telemetry::FLAG_ONE_TO_GREEN;
use crate::telemetry::FLAG_YELLOW;
use crate::telemetry::FLAG_YELLOW_WAVING;
use crate::timespan::TimeSpan;
use vstd::prelude::*;

verus! {

broadcast use crate::timespan::lemma_timespan_view_nonneg;

/// The wire value meaning an unlimited session time.
pub const UNLIMITED_TIME_US: i64 = 604_800_000_000;

/// The wire value meaning an unlimited lap count.
pub const UNLIMITED_LAPS: i32 = 32767;

/// Largest session clock value a frame may carry, in microseconds; lap
/// times derived from the clock then fit a recorded lap.
pub const MAX_ROW_TIME_US: i64 = 0x4000_0000_0000;

/// One telemetry frame, as plain values: times in microseconds, lap
/// progress in millionths, fuel in milli-litres, temperature in
/// milli-degrees.
#[derive(Clone, Copy, Debug)]
pub struct TelemetryRow {
    pub session_num: i32,
    pub session_time_us: i64,
    pub is_on_track: bool,
    pub player_track_surface: TrackLocation,
    pub session_state: SessionState,
    pub session_flags: Flags,
    pub session_time_remain_us: i64,
    pub session_laps_remain: i32,
    pub session_time_total_us: i64,
    pub session_laps_total: i32,
    pub lap: i32,
    pub lap_completed: i32,
    pub race_laps: i32,
    pub fuel_level: u64,
    pub lap_progress_ppm: u32,
    pub track_temp_mc: i32,
}

/// A frame the estimator accepts: the clock runs forward within its
/// range, lap progress is a fraction of a lap, and the fuel reading fits
/// the planner's bound.
pub open spec fn row_wf(row: TelemetryRow) -> bool {
    &&& 0 <= row.session_time_us <= MAX_ROW_TIME_US
    &&& row.lap_progress_ppm < 1_000_000
    &&& row.fuel_level <= MAX_FUEL_MILLI
}

impl TelemetryRow {
    /// Checks at run time that a frame is acceptable.
    pub fn check_wf(&self) -> (r: bool)
        ensures
            r == row_wf(*self),
    {
        0 <= self.session_time_us && self.session_time_us <= MAX_ROW_TIME_US
            && self.lap_progress_ppm < 1_000_000 && self.fuel_level <= MAX_FUEL_MILLI
    }
}

/// The race-end axis a frame reports: during warmup and parade laps the
/// session totals, afterwards the remaining amounts.
pub open spec fn spec_end_axis(row: TelemetryRow) -> (int, int) {
    match row.session_state {
        SessionState::Warmup => (row.session_time_total_us as int, row.session_laps_total as int),
        SessionState::ParadeLaps => (
            row.session_time_total_us as int,
            row.session_laps_total as int,
        ),
        _ => (row.session_time_remain_us as int, row.session_laps_remain as int),
    }
}

/// What the race-end condition derived from a frame must be: when both
/// axes are unlimited the session counts as a thirty-minute practice from
/// its start; when one is unlimited the other rules alone; negatives
/// clamp to a zero time.
pub open spec fn spec_ends_matches(row: TelemetryRow, r: EndsWith) -> bool {
    let tm = spec_end_axis(row).0;
    let laps = spec_end_axis(row).1;
    if tm == UNLIMITED_TIME_US {
        if laps == UNLIMITED_LAPS {
            &&& r is Time
            &&& (r->Time_0)@ == (if 1_800_000_000 - row.session_time_us >= 0 {
                (1_800_000_000 - row.session_time_us) * 1000
            } else {
                0int
            })
        } else {
            r is Laps && r->Laps_0 == laps
        }
    } else if laps == UNLIMITED_LAPS {
        &&& r is Time
        &&& (r->Time_0)@ == (if tm >= 0 {
            tm * 1000
        } else {
            0int
        })
    } else {
        &&& r is LapsOrTime
        &&& r->LapsOrTime_0 == laps
        &&& (r->LapsOrTime_1)@ == (if tm >= 0 {
            tm * 1000
        } else {
            0int
        })
    }
}

impl TelemetryRow {
    /// The race-end condition this frame reports.
    pub fn ends(&self) -> (r: EndsWith)
        requires
            row_wf(*self),
        ensures
            spec_ends_matches(*self, r),
    {
        let in_prep = match self.session_state {
            SessionState::Warmup => true,
            SessionState::ParadeLaps => true,
            _ => false,
        };
        let tm: i64 = if in_prep {
            self.session_time_total_us
        } else {
            self.session_time_remain_us
        };
        let laps: i32 = if in_prep {
            self.session_laps_total
        } else {
            self.session_laps_remain
        };
        if tm == UNLIMITED_TIME_US {
            if laps == UNLIMITED_LAPS {
                let left: i64 = 1_800_000_000 - self.session_time_us;
                let clamped: u64 = if left >= 0 {
                    left as u64
                } else {
                    0
                };
                EndsWith::Time(TimeSpan::from_micros(clamped))
            } else {
                EndsWith::Laps(laps)
            }
        } else if laps == UNLIMITED_LAPS {
            let clamped: u64 = if tm >= 0 {
                tm as u64
            } else {
                0
            };
            EndsWith::Time(TimeSpan::from_micros(clamped))
        } else {
            let clamped: u64 = if tm >= 0 {
                tm as u64
            } else {
                0
            };
            EndsWith::LapsOrTime(laps, TimeSpan::from_micros(clamped))
        }
    }
}

/// The condition bits a frame stamps on the running lap: caution when any
/// caution flag waves, pitted when the car is in or entering the pit
/// lane, pace lap during warmup or parade, and one-to-green only during a
/// caution. The bits are disjoint, so they assemble by addition.
pub open spec fn spec_lap_state_bits(row: TelemetryRow) -> u32 {
    let yellow = row.session_flags.bits & (FLAG_YELLOW | FLAG_YELLOW_WAVING | FLAG_CAUTION
        | FLAG_CAUTION_WAVING) != 0;
    let pitted = row.player_track_surface == TrackLocation::ApproachingPits
        || row.player_track_surface == TrackLocation::InPitStall;
    let pace = row.session_state == SessionState::ParadeLaps || row.session_state
        == SessionState::Warmup;
    let otg = row.session_flags.bits & FLAG_ONE_TO_GREEN != 0 && yellow;
    ((if yellow {
        0x01u32
    } else {
        0u32
    }) + (if pitted {
        0x02u32
    } else {
        0u32
    }) + (if pace {
        0x04u32
    } else {
        0u32
    }) + (if otg {
        0x08u32
    } else {
        0u32
    })) as u32
}

impl TelemetryRow {
    /// The lap-condition bits this frame stamps on the running lap.
    pub fn lap_state(&self) -> (r: LapState)
        ensures
            r.bits == spec_lap_state_bits(*self),
    {
        let mut bits: u32 = 0;
        let yellow = self.session_flags.intersects(
            FLAG_YELLOW | FLAG_YELLOW_WAVING | FLAG_CAUTION | FLAG_CAUTION_WAVING,
        );
        if yellow {
            bits = bits + 0x01;
        }
        if self.player_track_surface == TrackLocation::ApproachingPits || self.player_track_surface
            == TrackLocation::InPitStall {
            bits = bits + 0x02;
        }
        if self.session_state == SessionState::ParadeLaps || self.session_state
            == SessionState::Warmup {
            bits = bits + 0x04;
        }
        if self.session_flags.intersects(FLAG_ONE_TO_GREEN) && yellow {
            bits = bits + 0x08;
        }
        LapState { bits }
    }
}

/// The session time, in microseconds, at which the lap-progress axis
/// crosses `check_pos`, interpolated linearly between a frame at the end
/// of a lap and the following frame at the start of the next; the end
/// frame's position is unwrapped by one whole lap.
pub open spec fn spec_interp_us(
    end_pos_ppm: int,
    end_tm_us: int,
    start_pos_ppm: int,
    start_tm_us: int,
    check_pos_ppm: int,
) -> int {
    end_tm_us + (start_tm_us - end_tm_us) * (check_pos_ppm + 1_000_000 - end_pos_ppm) / (
    start_pos_ppm + 1_000_000 - end_pos_ppm)
}

/// Interpolates the session time at which the car crossed `check_pos`,
/// for a lap boundary: the first frame is from the end of the old lap,
/// the second from the start of the new one.
pub fn interpolate_checkpoint_time(
    end_pos_ppm: u32,
    end_tm_us: i64,
    start_pos_ppm: u32,
    start_tm_us: i64,
    check_pos_ppm: u32,
) -> (r: TimeSpan)
    requires
        end_pos_ppm < 1_000_000,
        start_pos_ppm < 1_000_000,
        check_pos_ppm <= start_pos_ppm,
        start_pos_ppm < end_pos_ppm,
        0 <= end_tm_us <= start_tm_us <= MAX_ROW_TIME_US,
    ensures
        r@ == spec_interp_us(
            end_pos_ppm as int,
            end_tm_us as int,
            start_pos_ppm as int,
            start_tm_us as int,
            check_pos_ppm as int,
        ) * 1000,
        end_tm_us * 1000 <= r@ <= start_tm_us * 1000,
{
    let num: i128 = check_pos_ppm as i128 + 1_000_000 - end_pos_ppm as i128;
    let den: i128 = start_pos_ppm as i128 + 1_000_000 - end_pos_ppm as i128;
    let delta: i128 = start_tm_us as i128 - end_tm_us as i128;
    proof {
        assert(0 < num <= den);
        assert(0 <= (delta as int) * (num as int) / (den as int) <= delta) by (nonlinear_arith)
            requires
                0 < num <= den,
                0 <= delta,
        ;
        assert((delta as int) * (num as int) <= 0x4000_0000_0000 * 0x20_0000) by (nonlinear_arith)
            requires
                0 <= delta <= 0x4000_0000_0000,
                0 < num <= 0x20_0000,
        ;
    }
    let part: i128 = delta * num / den;
    let val: i128 = end_tm_us as i128 + part;
    let r = TimeSpan::from_micros(val as u64);
    proof {
        assert(r@ == val * 1000);
    }
    r
}

/// What remains, of fuel, laps and time: for the car, what the tank still
/// covers; for the race, what is still to run. Laps are in thousandths.
#[derive(Clone, Copy, Debug, PartialEq, Eq, Structural)]
pub struct AmountLeft {
    pub fuel: u64,
    pub laps: u64,
    pub time: TimeSpan,
}

impl Default for AmountLeft {
    /// Everything at zero.
    fn default() -> (r: AmountLeft)
        ensures
            r.fuel == 0,
            r.laps == 0,
            r.time@ == 0,
    {
        AmountLeft { fuel: 0, laps: 0, time: TimeSpan::zero() }
    }
}

/// The user's tuning knobs: the fuel-save share in per-mille, the fuel
/// reserve in milli-litres, the refuel margins in thousandths of a lap
/// and milli-litres, and the tire choices.
#[derive(Clone, Copy, Debug, PartialEq, Eq, Structural)]
pub struct UserSettings {
    pub max_fuel_save: u32,
    pub min_fuel: u64,
    pub extra_laps: u64,
    pub extra_fuel: u64,
    pub clear_tires: bool,
    pub take_tires: bool,
}

impl Default for UserSettings {
    /// Save at most 15%, keep 0.2 l in the tank, refuel for two extra
    /// laps or one extra litre, leave tires alone.
    fn default() -> (r: UserSettings)
        ensures
            r.max_fuel_save == 150,
            r.min_fuel == 200,
            r.extra_laps == 2000,
            r.extra_fuel == 1000,
            !r.clear_tires,
            !r.take_tires,
    {
        UserSettings {
            max_fuel_save: 150,
            min_fuel: 200,
            extra_laps: 2000,
            extra_fuel: 1000,
            clear_tires: false,
            take_tires: false,
        }
    }
}

/// Settings the estimator accepts: the save share is a true share and the
/// margins stay within the planner's bounds.
pub open spec fn settings_wf(s: UserSettings) -> bool {
    &&& s.max_fuel_save <= 1000
    &&& s.min_fuel <= MAX_FUEL_MILLI
    &&& s.extra_fuel <= MAX_FUEL_MILLI
    &&& s.extra_laps <= 0x10_0000
}

impl UserSettings {
    /// Checks at run time that the settings are acceptable.
    pub fn check_wf(&self) -> (r: bool)
        ensures
            r == settings_wf(*self),
    {
        self.max_fuel_save <= 1000 && self.min_fuel <= MAX_FUEL_MILLI && self.extra_fuel
            <= MAX_FUEL_MILLI && self.extra_laps <= 0x10_0000
    }
}

/// Relies on `chrono::Local::now` and `chrono::DateTime::timestamp_millis`:
/// the current local wall-clock time as milliseconds since the epoch.
/// Nothing can be promised of a clock reading; the call itself presumes
/// a system clock at or after the Unix epoch, as chrono stops otherwise.
#[verifier::external_body]
fn now_millis() -> i64 {
    chrono::Local::now().timestamp_millis()
}

/// The estimation snapshot the dashboard reads each tick. Times in the
/// wall clock are milliseconds since the epoch; the fuel used on the last
/// lap is signed because a tow or a reset can hand fuel back.
#[derive(Clone, Copy, Debug)]
pub struct Estimation {
    pub connected: bool,
    pub car: AmountLeft,
    pub race: AmountLeft,
    pub race_tm_estimated: bool,
    pub race_laps_estimated: bool,
    pub fuel_last_lap: i64,
    pub green: Rate,
    pub stops: usize,
    pub next_stop: Option<Pitstop>,
    pub save: u64,
    pub save_target: (i64, u64),
    pub track_temp_mc: i32,
    pub start_track_temp_mc: i32,
    pub now_ms: i64,
}

impl Default for Estimation {
    /// The disconnected snapshot: everything zero, both race axes marked
    /// as estimates, the wall clock at the moment of the call.
    fn default() -> (r: Estimation)
        ensures
            !r.connected,
            r.car.fuel == 0 && r.car.laps == 0 && r.car.time@ == 0,
            r.race.fuel == 0 && r.race.laps == 0 && r.race.time@ == 0,
            r.race_tm_estimated,
            r.race_laps_estimated,
            r.fuel_last_lap == 0,
            r.green.fuel == 0 && r.green.time@ == 0,
            r.stops == 0,
            r.next_stop is None,
            r.save == 0,
            r.save_target == (0i64, 1u64),
            r.track_temp_mc == 0,
            r.start_track_temp_mc == 0,
    {
        Estimation {
            connected: false,
            car: AmountLeft { fuel: 0, laps: 0, time: TimeSpan::zero() },
            race: AmountLeft { fuel: 0, laps: 0, time: TimeSpan::zero() },
            race_tm_estimated: true,
            race_laps_estimated: true,
            fuel_last_lap: 0,
            green: Rate { fuel: 0, time: TimeSpan::zero() },
            stops: 0,
            next_stop: None,
            save: 0,
            save_target: (0, 1),
            track_temp_mc: 0,
            start_track_temp_mc: 0,
            now_ms: now_millis(),
        }
    }
}

/// The whole litres to request at the next stop so the plan's fuel plus
/// the larger refuel margin is on board, rounded up; zero when the tank
/// already holds enough.
pub open spec fn spec_refuel_litres(
    total_fuel: int,
    fuel_level: int,
    extra_fuel: int,
    extra_laps_milli: int,
    green_fuel: int,
) -> int {
    let margin_laps = green_fuel * extra_laps_milli / 1000;
    let margin = if extra_fuel >= margin_laps {
        extra_fuel
    } else {
        margin_laps
    };
    if total_fuel + margin > fuel_level {
        (total_fuel + margin - fuel_level + 999) / 1000
    } else {
        0
    }
}

/// The session clock jumped backwards: the driver moved to another
/// sub-session of the same race.
pub open spec fn is_reset(last: TelemetryRow, frame: TelemetryRow) -> bool {
    frame.session_time_us < last.session_time_us
}

/// The driver just got into the car.
pub open spec fn is_enter_car(lap_start: TelemetryRow, frame: TelemetryRow) -> bool {
    !lap_start.is_on_track && frame.is_on_track
}

/// The car just left its pit stall.
pub open spec fn is_pit_exit(last: TelemetryRow, frame: TelemetryRow) -> bool {
    last.player_track_surface == TrackLocation::InPitStall && frame.player_track_surface
        != TrackLocation::InPitStall
}

/// The parade laps just began.
pub open spec fn is_parade_start(last: TelemetryRow, frame: TelemetryRow) -> bool {
    frame.session_state == SessionState::ParadeLaps && last.session_state
        != SessionState::ParadeLaps
}

/// A lap boundary was just crossed: progress wrapped from near the end
/// of a lap to near its start.
pub open spec fn is_lap_boundary(last: TelemetryRow, frame: TelemetryRow) -> bool {
    frame.lap_progress_ppm < 100_000 && last.lap_progress_ppm > 900_000
}

/// The car just turned onto the pit approach.
pub open spec fn is_pit_approach(last: TelemetryRow, frame: TelemetryRow) -> bool {
    frame.player_track_surface == TrackLocation::ApproachingPits && last.player_track_surface
        != TrackLocation::ApproachingPits
}

/// The frame that marks the start of the current lap after one tick: a
/// session reset, getting into the car, leaving the pit stall, the
/// parade laps beginning, or a lap boundary each restart the lap at the
/// new frame.
pub open spec fn next_lap_start(
    last: TelemetryRow,
    lap_start: TelemetryRow,
    frame: TelemetryRow,
) -> TelemetryRow {
    if is_reset(last, frame) {
        frame
    } else if is_pit_exit(last, frame) || is_parade_start(last, frame) || is_lap_boundary(
        last,
        frame,
    ) {
        frame
    } else if is_enter_car(lap_start, frame) {
        frame
    } else {
        lap_start
    }
}

/// The lap-start frame in effect when a lap boundary is measured: the
/// pit-exit and parade fixups have already run, the boundary's own
/// restart has not.
pub open spec fn boundary_lap_start(
    last: TelemetryRow,
    lap_start: TelemetryRow,
    frame: TelemetryRow,
) -> TelemetryRow {
    if is_pit_exit(last, frame) || is_parade_start(last, frame) {
        frame
    } else if is_enter_car(lap_start, frame) {
        frame
    } else {
        lap_start
    }
}

/// The microsecond timestamp at which the finish line was crossed, for a
/// lap boundary between `last` and `frame`.
pub open spec fn boundary_cross_us(last: TelemetryRow, frame: TelemetryRow) -> int {
    spec_interp_us(
        last.lap_progress_ppm as int,
        last.session_time_us as int,
        frame.lap_progress_ppm as int,
        frame.session_time_us as int,
        0,
    )
}

/// A non-negative value, or zero.
pub open spec fn clamp0(v: int) -> int {
    if v >= 0 {
        v
    } else {
        0
    }
}

/// Whether the tick asks the planner for a fresh strategy: leaving the
/// pit stall, the parade laps beginning, or a lap boundary while laps
/// still count, each outside a session reset.
pub open spec fn refresh_fires(last: TelemetryRow, frame: TelemetryRow) -> bool {
    !is_reset(last, frame) && (is_pit_exit(last, frame) || is_parade_start(last, frame) || (
    is_lap_boundary(last, frame) && !race_over(frame)))
}

/// The session time this tick advanced by, in microseconds; zero across
/// a reset.
pub open spec fn tick_us(last: TelemetryRow, frame: TelemetryRow) -> int {
    if is_reset(last, frame) {
        0
    } else {
        frame.session_time_us - last.session_time_us
    }
}

/// The fuel burned this tick as the race axis sees it: the drop of the
/// tank reading, zero across a reset or off track.
pub open spec fn tick_burn(last: TelemetryRow, frame: TelemetryRow) -> int {
    if is_reset(last, frame) || !frame.is_on_track {
        0
    } else {
        clamp0(last.fuel_level - frame.fuel_level)
    }
}

/// The strategy-derived fields of a snapshot were copied from a plan
/// the planner vouches for on this session's own state: a strategy
/// matching the request the history builds from the given session
/// record, lap list, stored defaults and frame.
pub open spec fn strategy_fields_tethered(
    save: u64,
    stops: usize,
    next_stop: Option<Pitstop>,
    green: Rate,
    cfg: RaceSession,
    laps: Seq<Lap>,
    def_green: Option<Rate>,
    def_yellow: Option<Rate>,
    frame: TelemetryRow,
) -> bool {
    exists|ends: EndsWith, req: StratRequest, s: Strategy|
        #![trigger crate::history::strat_request_built(
            cfg,
            laps,
            def_green,
            def_yellow,
            frame.fuel_level,
            ends,
            req,
        ), crate::strat::strategy_matches(req, s)]
        {
            &&& spec_ends_matches(frame, ends)
            &&& crate::history::strat_request_built(
                cfg,
                laps,
                def_green,
                def_yellow,
                frame.fuel_level,
                ends,
                req,
            )
            &&& crate::strat::req_wf(req)
            &&& crate::strat::strategy_matches(req, s)
            &&& save == s.fuel_to_save
            &&& stops == s.stops@.len()
            &&& next_stop == (if s.stops@.len() == 0 {
                None::<Pitstop>
            } else {
                Some(s.stops@[0])
            })
            &&& green == s.green
        }
}

/// The session is past the point where laps still count.
pub open spec fn race_over(frame: TelemetryRow) -> bool {
    frame.session_state == SessionState::Checkered || frame.session_state
        == SessionState::CoolDown
}

/// Whether the tick records a lap: a boundary was crossed outside a
/// reset, laps still count, the lap used some fuel and took some time,
/// and the session has room for it.
pub open spec fn records_lap(
    last: TelemetryRow,
    lap_start: TelemetryRow,
    frame: TelemetryRow,
    lap_count: int,
) -> bool {
    let ls = boundary_lap_start(last, lap_start, frame);
    &&& !is_reset(last, frame)
    &&& is_lap_boundary(last, frame)
    &&& !race_over(frame)
    &&& ls.fuel_level - frame.fuel_level >= 1
    &&& boundary_cross_us(last, frame) - ls.session_time_us >= 1
    &&& lap_count < MAX_SESSION_LAPS
}

/// The lap such a tick records.
pub open spec fn recorded_lap_matches(
    last: TelemetryRow,
    lap_start: TelemetryRow,
    frame: TelemetryRow,
    l: Lap,
) -> bool {
    let ls = boundary_lap_start(last, lap_start, frame);
    &&& l.fuel_used == ls.fuel_level - frame.fuel_level
    &&& l.fuel_left == frame.fuel_level
    &&& l.time@ == (boundary_cross_us(last, frame) - ls.session_time_us) * 1000
    &&& l.condition.bits == spec_lap_state_bits(frame) | spec_lap_state_bits(ls)
}

/// Computes the litres to request at the next stop, from the plan's total
/// fuel, the tank reading, and the user's refuel margins.
pub fn refuel_litres(
    total_fuel: u64,
    fuel_level: u64,
    extra_fuel: u64,
    extra_laps_milli: u64,
    green_fuel: u64,
) -> (r: u64)
    requires
        total_fuel <= 0x2000_0000_0000_0000,
        fuel_level <= MAX_FUEL_MILLI,
        extra_fuel <= MAX_FUEL_MILLI,
        extra_laps_milli <= 0x10_0000,
        green_fuel <= MAX_FUEL_MILLI,
    ensures
        r == spec_refuel_litres(
            total_fuel as int,
            fuel_level as int,
            extra_fuel as int,
            extra_laps_milli as int,
            green_fuel as int,
        ),
{
    proof {
        assert(green_fuel * extra_laps_milli <= 0x4000_0000 * 0x10_0000) by (nonlinear_arith)
            requires
                green_fuel <= 0x4000_0000,
                extra_laps_milli <= 0x10_0000,
        ;
        assert(green_fuel * extra_laps_milli / 1000 <= green_fuel * extra_laps_milli);
    }
    let margin_laps: u64 = green_fuel * extra_laps_milli / 1000;
    let margin: u64 = if extra_fuel >= margin_laps {
        extra_fuel
    } else {
        margin_laps
    };
    if total_fuel + margin > fuel_level {
        (total_fuel + margin - fuel_level + 999) / 1000
    } else {
        0
    }
}

/// Copies a freshly computed strategy into the estimation snapshot: the
/// planned saving, the next stop, the stop count, the green rate, the
/// race totals, and the per-lap save target. The car-side fields and the
/// bookkeeping flags stay as they were.
fn strat_to_result(strat: &Strategy, result: &mut Estimation)
    requires
        0 <= crate::strat::stints_laps_total(strat.stints@),
        crate::strat::stints_laps_total(strat.stints@) * 1000 <= u64::MAX,
        0 <= crate::strat::stints_fuel_total(strat.stints@) <= i64::MAX,
        0 <= crate::strat::stints_time_total(strat.stints@) < crate::timespan::nano_limit(),
        strat.fuel_to_save <= i64::MAX,
    ensures
        final(result).save == strat.fuel_to_save,
        final(result).next_stop == (if strat.stops@.len() == 0 {
            None::<Pitstop>
        } else {
            Some(strat.stops@[0])
        }),
        final(result).stops == strat.stops@.len(),
        final(result).green == strat.green,
        final(result).race.laps == crate::strat::stints_laps_total(strat.stints@) * 1000,
        final(result).race.fuel == crate::strat::stints_fuel_total(strat.stints@),
        final(result).race.time@ == crate::strat::stints_time_total(strat.stints@),
        final(result).save_target == ({
            let st = strat.stints@;
            let laps_before = crate::strat::close_at(st, st.len() - 1);
            let fuel_before = crate::strat::fuel_total_at(st, st.len() - 1);
            if strat.fuel_to_save > 0 && laps_before > 0 {
                ((fuel_before - strat.fuel_to_save) as i64, laps_before as u64)
            } else {
                (0i64, 1u64)
            }
        }),
        final(result).connected == old(result).connected,
        final(result).car == old(result).car,
        final(result).race_tm_estimated == old(result).race_tm_estimated,
        final(result).race_laps_estimated == old(result).race_laps_estimated,
        final(result).fuel_last_lap == old(result).fuel_last_lap,
        final(result).track_temp_mc == old(result).track_temp_mc,
        final(result).start_track_temp_mc == old(result).start_track_temp_mc,
        final(result).now_ms == old(result).now_ms,
{
    result.save = strat.fuel_to_save;
    if strat.stops.len() == 0 {
        result.next_stop = None;
    } else {
        result.next_stop = Some(strat.stops[0]);
    }
    result.stops = strat.stops.len();
    result.green = strat.green;
    result.race.laps = strat.total_laps() * 1000;
    result.race.fuel = strat.total_fuel();
    result.race.time = strat.total_time();
    result.save_target = strat.fuel_target();
}

/// One live session being tracked: its lap history and the frames that
/// anchor the current lap.
pub struct SessionProgress {
    calc: History,
    last: TelemetryRow,
    lap_start: TelemetryRow,
    first: TelemetryRow,
}

impl SessionProgress {
    /// The most recent frame consumed.
    pub closed spec fn spec_last(&self) -> TelemetryRow {
        self.last
    }

    /// The frame at the start of the current lap.
    pub closed spec fn spec_lap_start(&self) -> TelemetryRow {
        self.lap_start
    }

    /// The first frame of the current sub-session.
    pub closed spec fn spec_first(&self) -> TelemetryRow {
        self.first
    }

    /// The laps recorded so far.
    pub closed spec fn spec_laps(&self) -> Seq<Lap> {
        self.calc.spec_laps()
    }

    /// The session record of the history.
    pub closed spec fn spec_cfg(&self) -> RaceSession {
        self.calc.spec_cfg()
    }

    /// How many recorded laps the store has committed.
    pub closed spec fn spec_saved(&self) -> int {
        self.calc.spec_saved()
    }

    /// The lap rows the store has committed.
    pub closed spec fn spec_written(&self) -> Seq<Lap> {
        self.calc.spec_written()
    }

    /// Whether a store is attached.
    pub closed spec fn has_db(&self) -> bool {
        self.calc.has_db()
    }

    /// The stored default green rate of the history.
    pub closed spec fn spec_def_green(&self) -> Option<Rate> {
        self.calc.spec_def_green()
    }

    /// The stored default yellow rate of the history.
    pub closed spec fn spec_def_yellow(&self) -> Option<Rate> {
        self.calc.spec_def_yellow()
    }

    /// The tracker's invariant: a well-formed history, well-formed
    /// anchor frames, and a lap start no later than the last frame.
    pub closed spec fn wf(&self) -> bool {
        &&& self.calc.wf()
        &&& row_wf(self.last)
        &&& row_wf(self.lap_start)
        &&& row_wf(self.first)
        &&& self.lap_start.session_time_us <= self.last.session_time_us
    }

    /// Starts tracking a session from its first frame, with the lap
    /// store at the given path if any.
    pub fn new(cfg: RaceSession, db_file: Option<&str>, first: TelemetryRow) -> (r:
        SessionProgress)
        requires
            session_wf(cfg),
            row_wf(first),
        ensures
            r.wf(),
            r.spec_last() == first,
            r.spec_lap_start() == first,
            r.spec_first() == first,
            r.spec_laps() == Seq::<Lap>::empty(),
            r.spec_cfg() == cfg,
    {
        let calc = match History::new(cfg, db_file) {
            Ok(h) => h,
            Err(_) => vstd::pervasive::unreached(),
        };
        SessionProgress { calc, last: first, lap_start: first, first }
    }

    /// Flushes the unsaved laps to the store: on success the store has
    /// committed exactly the recorded laps, the high-water mark at their
    /// end; on failure nothing more was committed. With no store there
    /// is nothing to flush.
    pub fn flush(&mut self) -> (r: Result<(), crate::history::HistoryError>)
        requires
            old(self).wf(),
        ensures
            final(self).wf(),
            final(self).spec_laps() == old(self).spec_laps(),
            final(self).spec_last() == old(self).spec_last(),
            final(self).spec_lap_start() == old(self).spec_lap_start(),
            final(self).spec_first() == old(self).spec_first(),
            final(self).spec_cfg() == old(self).spec_cfg(),
            final(self).has_db() == old(self).has_db(),
            old(self).has_db() && r is Ok ==> final(self).spec_saved() == old(
                self,
            ).spec_laps().len(),
            old(self).has_db() && r is Ok ==> final(self).spec_written() == old(
                self,
            ).spec_written() + crate::history::pending_rows(
                old(self).spec_laps(),
                old(self).spec_saved(),
            ),
            !old(self).has_db() ==> r is Ok && final(self).spec_saved() == 0,
            !old(self).has_db() ==> final(self).spec_written() == old(self).spec_written(),
            r is Err ==> final(self).spec_saved() == old(self).spec_saved(),
            r is Err ==> final(self).spec_written() == old(self).spec_written(),
    {
        self.calc.save_laps()
    }

    /// Consumes one telemetry frame: detects session resets, lap starts,
    /// pit exits, parade laps and lap boundaries, records completed
    /// laps, refreshes the strategy and the estimation snapshot, and
    /// hands back the pit commands to broadcast. A reset flushes the
    /// pending laps first. Fields of the snapshot that a strategy
    /// refresh rewrites follow the planner's contract.
    #[verifier::rlimit(60)]
    pub fn update(&mut self, settings: &UserSettings, frame: TelemetryRow, result: &mut Estimation)
        -> (cmds: Vec<PitCommandMode>)
        requires
            old(self).wf(),
            row_wf(frame),
            settings_wf(*settings),
        ensures
            final(self).wf(),
            final(self).spec_last() == frame,
            final(self).spec_cfg() == old(self).spec_cfg(),
            final(self).spec_first() == (if is_reset(old(self).spec_last(), frame) {
                frame
            } else {
                old(self).spec_first()
            }),
            final(self).spec_lap_start() == next_lap_start(
                old(self).spec_last(),
                old(self).spec_lap_start(),
                frame,
            ),
            final(self).spec_laps() == (if records_lap(
                old(self).spec_last(),
                old(self).spec_lap_start(),
                frame,
                old(self).spec_laps().len() as int,
            ) {
                old(self).spec_laps().push(final(self).spec_laps().last())
            } else {
                old(self).spec_laps()
            }),
            records_lap(
                old(self).spec_last(),
                old(self).spec_lap_start(),
                frame,
                old(self).spec_laps().len() as int,
            ) ==> recorded_lap_matches(
                old(self).spec_last(),
                old(self).spec_lap_start(),
                frame,
                final(self).spec_laps().last(),
            ),
            final(result).car.fuel == frame.fuel_level,
            final(result).track_temp_mc == frame.track_temp_mc,
            final(result).start_track_temp_mc == final(self).spec_first().track_temp_mc,
            !is_reset(old(self).spec_last(), frame) && is_lap_boundary(old(self).spec_last(), frame)
                ==> final(result).fuel_last_lap == boundary_lap_start(
                old(self).spec_last(),
                old(self).spec_lap_start(),
                frame,
            ).fuel_level - frame.fuel_level,
            !(!is_reset(old(self).spec_last(), frame) && is_lap_boundary(
                old(self).spec_last(),
                frame,
            )) ==> final(result).fuel_last_lap == old(result).fuel_last_lap,
            cmds@.len() > 0 ==> !is_reset(old(self).spec_last(), frame) && is_pit_approach(
                old(self).spec_last(),
                frame,
            ),
            !is_reset(old(self).spec_last(), frame) && is_pit_approach(old(self).spec_last(), frame)
                ==> cmds@.len() > 0 && (cmds@.last() is Fuel || cmds@.last() is ClearFuel),
            !is_reset(old(self).spec_last(), frame) && is_pit_approach(old(self).spec_last(), frame)
                ==> approach_fuel_command(
                cmds@.last(),
                final(self).spec_cfg(),
                final(self).spec_laps(),
                final(self).spec_def_green(),
                final(self).spec_def_yellow(),
                frame,
                *settings,
            ),
            !is_reset(old(self).spec_last(), frame) && is_pit_approach(old(self).spec_last(), frame)
                && settings.clear_tires ==> cmds@.len() == 2 && cmds@[0]
                == PitCommandMode::ClearTires,
            !is_reset(old(self).spec_last(), frame) && is_pit_approach(old(self).spec_last(), frame)
                && !settings.clear_tires && settings.take_tires ==> cmds@.len() == 5 && cmds@[0]
                == PitCommandMode::LF(0i16) && cmds@[1] == PitCommandMode::RF(0i16) && cmds@[2]
                == PitCommandMode::LR(0i16) && cmds@[3] == PitCommandMode::RR(0i16),
            !is_reset(old(self).spec_last(), frame) && is_pit_approach(old(self).spec_last(), frame)
                && !settings.clear_tires && !settings.take_tires ==> cmds@.len() == 1,
            is_reset(old(self).spec_last(), frame) ==> ((final(self).spec_saved()
                == old(self).spec_laps().len() && final(self).spec_written()
                == old(self).spec_written() + crate::history::pending_rows(
                old(self).spec_laps(),
                old(self).spec_saved(),
            )) || (final(self).spec_saved() == old(self).spec_saved()
                && final(self).spec_written() == old(self).spec_written())),
            !is_reset(old(self).spec_last(), frame) ==> final(self).spec_saved()
                == old(self).spec_saved(),
            !is_reset(old(self).spec_last(), frame) ==> final(self).spec_written()
                == old(self).spec_written(),
            final(result).race_laps_estimated == (spec_end_axis(frame).1 == UNLIMITED_LAPS),
            final(result).race_tm_estimated == (spec_end_axis(frame).0 == UNLIMITED_TIME_US
                && spec_end_axis(frame).1 != UNLIMITED_LAPS),
            spec_end_axis(frame).1 != UNLIMITED_LAPS ==> final(result).race.laps == clamp0(
                spec_end_axis(frame).1,
            ) * 1000,
            spec_end_axis(frame).1 == UNLIMITED_LAPS && spec_end_axis(frame).0
                != UNLIMITED_TIME_US ==> final(result).race.time@ == clamp0(
                spec_end_axis(frame).0,
            ) * 1000,
            spec_end_axis(frame).1 == UNLIMITED_LAPS && spec_end_axis(frame).0
                == UNLIMITED_TIME_US ==> final(result).race.time@ == clamp0(
                1_800_000_000 - frame.session_time_us,
            ) * 1000,
            spec_end_axis(frame).1 != UNLIMITED_LAPS && spec_end_axis(frame).0
                != UNLIMITED_TIME_US ==> final(result).race.time@ == clamp0(
                spec_end_axis(frame).0,
            ) * 1000,
            !refresh_fires(old(self).spec_last(), frame) && spec_end_axis(frame).1
                != UNLIMITED_LAPS && spec_end_axis(frame).0 == UNLIMITED_TIME_US
                ==> final(result).race.time@ == clamp0(
                old(result).race.time@ - tick_us(old(self).spec_last(), frame) * 1000,
            ),
            !refresh_fires(old(self).spec_last(), frame) ==> final(result).race.fuel == clamp0(
                old(result).race.fuel - tick_burn(old(self).spec_last(), frame),
            ),
            !refresh_fires(old(self).spec_last(), frame) ==> final(result).save
                == old(result).save,
            !refresh_fires(old(self).spec_last(), frame) ==> final(result).stops
                == old(result).stops,
            !refresh_fires(old(self).spec_last(), frame) ==> final(result).next_stop
                == old(result).next_stop,
            !refresh_fires(old(self).spec_last(), frame) ==> final(result).green
                == old(result).green,
            (final(result).save == old(result).save && final(result).stops == old(result).stops
                && final(result).next_stop == old(result).next_stop && final(result).green
                == old(result).green) || strategy_fields_tethered(
                final(result).save,
                final(result).stops,
                final(result).next_stop,
                final(result).green,
                final(self).spec_cfg(),
                old(self).spec_laps(),
                final(self).spec_def_green(),
                final(self).spec_def_yellow(),
                frame,
            ) || strategy_fields_tethered(
                final(result).save,
                final(result).stops,
                final(result).next_stop,
                final(result).green,
                final(self).spec_cfg(),
                final(self).spec_laps(),
                final(self).spec_def_green(),
                final(self).spec_def_yellow(),
                frame,
            ),
    {
        let ghost o_last = self.last;
        let ghost o_lap_start = self.lap_start;
        let mut cmds: Vec<PitCommandMode> = Vec::new();
        // A backward jump of the session clock means a new sub-session:
        // flush the lap store and restart all frame anchors here.
        if frame.session_time_us < self.last.session_time_us {
            let _flushed = self.calc.save_laps();
            self.last = frame;
            self.lap_start = frame;
            self.first = frame;
        }
        // Only laps driven from inside the car count.
        if !self.lap_start.is_on_track && frame.is_on_track {
            self.lap_start = frame;
        }
        // Leaving the pit stall restarts the lap and refreshes the plan.
        if self.last.player_track_surface == TrackLocation::InPitStall
            && frame.player_track_surface != self.last.player_track_surface {
            self.lap_start = frame;
            self.refresh_strategy(frame, result);
        }
        // So does the start of the parade laps.
        if frame.session_state == SessionState::ParadeLaps && self.last.session_state
            != frame.session_state {
            self.lap_start = frame;
            self.refresh_strategy(frame, result);
        }
        // A lap boundary: measure the lap, record it while laps still
        // count, refresh the plan, and restart the lap anchor.
        if frame.lap_progress_ppm < 100_000 && self.last.lap_progress_ppm > 900_000 {
            let cross = interpolate_checkpoint_time(
                self.last.lap_progress_ppm,
                self.last.session_time_us,
                frame.lap_progress_ppm,
                frame.session_time_us,
                0,
            );
            let cross_us: i64 = (cross.total_nanos() / 1000) as i64;
            let ls = self.lap_start;
            let fuel_used: i64 = ls.fuel_level as i64 - frame.fuel_level as i64;
            let lap_time_us: i64 = cross_us - ls.session_time_us;
            let done = match frame.session_state {
                SessionState::Checkered => true,
                SessionState::CoolDown => true,
                _ => false,
            };
            if !done {
                if fuel_used >= 1 && lap_time_us >= 1 && self.calc.lap_count()
                    < MAX_SESSION_LAPS {
                    let lap = Lap {
                        fuel_used: fuel_used as u64,
                        fuel_left: frame.fuel_level,
                        time: TimeSpan::from_micros(lap_time_us as u64),
                        condition: frame.lap_state().union(ls.lap_state()),
                    };
                    proof {
                        assert(lap_time_us * 1000 <= MAX_ROW_TIME_US * 1000);
                        assert(lap_wf(lap));
                    }
                    self.calc.add_lap(lap);
                }
                self.refresh_strategy(frame, result);
            }
            result.fuel_last_lap = fuel_used;
            self.lap_start = frame;
        }
        // Turning onto the pit approach fires the pit-service commands
        // once: tires per the settings, then the refuel request.
        if frame.player_track_surface == TrackLocation::ApproachingPits
            && self.last.player_track_surface != TrackLocation::ApproachingPits {
            if settings.clear_tires {
                cmds.push(PitCommandMode::ClearTires);
            } else if settings.take_tires {
                cmds.push(PitCommandMode::LF(0));
                cmds.push(PitCommandMode::RF(0));
                cmds.push(PitCommandMode::LR(0));
                cmds.push(PitCommandMode::RR(0));
            }
            let ends = frame.ends();
            let strat_r = self.calc.strat(frame.fuel_level, ends);
            match strat_r {
                None => {
                    // With no strategy, ask for a full tank, in whole
                    // litres rounded up.
                    let litres: u64 = (self.calc.tank_size() + 999) / 1000;
                    cmds.push(PitCommandMode::Fuel(clamp_litres(litres)));
                    proof {
                        assert(cmds@.last() == PitCommandMode::Fuel(
                            spec_clamp_litres(
                                (self.calc.spec_cfg().fuel_tank_size + 999) / 1000,
                            ),
                        ));
                        if !crate::history::green_missing(
                            self.calc.spec_laps(),
                            self.calc.spec_def_green(),
                        ) {
                            let req0 = choose|req: StratRequest|
                                crate::history::strat_request_built(
                                    self.calc.spec_cfg(),
                                    self.calc.spec_laps(),
                                    self.calc.spec_def_green(),
                                    self.calc.spec_def_yellow(),
                                    frame.fuel_level,
                                    ends,
                                    req,
                                ) && ((strat_r is Some) <==> (crate::history::time_bound_ok(req)
                                && crate::strat::plan_len(req) > 0));
                            assert(!(crate::history::time_bound_ok(req0)
                                && crate::strat::plan_len(req0) > 0));
                            assert(spec_ends_matches(frame, ends));
                        }
                        assert(approach_fuel_command(
                            cmds@.last(),
                            self.calc.spec_cfg(),
                            self.calc.spec_laps(),
                            self.calc.spec_def_green(),
                            self.calc.spec_def_yellow(),
                            frame,
                            *settings,
                        ));
                    }
                },
                Some(x) => {
                    let ghost g_req = choose|req: StratRequest|
                        crate::history::strat_request_built(
                            self.calc.spec_cfg(),
                            self.calc.spec_laps(),
                            self.calc.spec_def_green(),
                            self.calc.spec_def_yellow(),
                            frame.fuel_level,
                            ends,
                            req,
                        ) && (crate::strat::req_wf(req) && crate::strat::strategy_matches(req, x)
                        && ((strat_r is Some) <==> (crate::history::time_bound_ok(req)
                        && crate::strat::plan_len(req) > 0)));
                    proof {
                        assert(crate::history::time_bound_ok(g_req) && crate::strat::plan_len(
                            g_req,
                        ) > 0);
                        crate::strat::lemma_strategy_totals(g_req, x);
                    }
                    let total = x.total_fuel();
                    let litres = refuel_litres(
                        total,
                        frame.fuel_level,
                        settings.extra_fuel,
                        settings.extra_laps,
                        x.green.fuel,
                    );
                    if litres > 0 {
                        cmds.push(PitCommandMode::Fuel(clamp_litres(litres)));
                    } else {
                        cmds.push(PitCommandMode::ClearFuel);
                    }
                    proof {
                        assert(approach_fuel_command(
                            cmds@.last(),
                            self.calc.spec_cfg(),
                            self.calc.spec_laps(),
                            self.calc.spec_def_green(),
                            self.calc.spec_def_yellow(),
                            frame,
                            *settings,
                        ));
                    }
                },
            }
        }
        // Per-tick outputs: the car side from the tank reading and the
        // green rate, the race side from the frame's own axis.
        result.car.fuel = frame.fuel_level;
        if frame.is_on_track {
            let burn: u64 = if self.last.fuel_level > frame.fuel_level {
                self.last.fuel_level - frame.fuel_level
            } else {
                0
            };
            result.race.fuel = if result.race.fuel > burn {
                result.race.fuel - burn
            } else {
                0
            };
        }
        if result.green.fuel > 0 && result.green.time.total_nanos() <= MAX_LAP_AVG_NANOS as u128 {
            result.car.laps = frame.fuel_level * 1000 / result.green.fuel;
            result.car.time = car_time_left(frame.fuel_level, &result.green);
        } else {
            result.car.laps = 0;
            result.car.time = TimeSpan::zero();
        }
        let dtick_us: i64 = frame.session_time_us - self.last.session_time_us;
        let dtick = TimeSpan::from_micros(dtick_us as u64);
        match frame.ends() {
            EndsWith::Laps(l) => {
                result.race.laps = if l >= 0 {
                    (l as u64) * 1000
                } else {
                    0
                };
                result.race.time = result.race.time.minus(result.race.time.min(dtick));
                result.race_laps_estimated = false;
                result.race_tm_estimated = true;
            },
            EndsWith::Time(d) => {
                result.race.time = d;
                result.race_laps_estimated = true;
                result.race_tm_estimated = false;
            },
            EndsWith::LapsOrTime(l, d) => {
                result.race.laps = if l >= 0 {
                    (l as u64) * 1000
                } else {
                    0
                };
                result.race.time = d;
                result.race_laps_estimated = false;
                result.race_tm_estimated = false;
            },
        }
        result.track_temp_mc = frame.track_temp_mc;
        result.start_track_temp_mc = self.first.track_temp_mc;
        result.now_ms = now_millis();
        self.last = frame;
        cmds
    }

    /// Asks the planner for a fresh strategy from the current fuel level
    /// and the frame's race-end condition, and copies a successful plan
    /// into the snapshot.
    fn refresh_strategy(&self, frame: TelemetryRow, result: &mut Estimation)
        requires
            self.calc.wf(),
            row_wf(frame),
        ensures
            final(result).car == old(result).car,
            final(result).connected == old(result).connected,
            final(result).fuel_last_lap == old(result).fuel_last_lap,
            final(result).race_tm_estimated == old(result).race_tm_estimated,
            final(result).race_laps_estimated == old(result).race_laps_estimated,
            final(result).track_temp_mc == old(result).track_temp_mc,
            final(result).start_track_temp_mc == old(result).start_track_temp_mc,
            final(result).now_ms == old(result).now_ms,
            (final(result).save == old(result).save && final(result).stops == old(result).stops
                && final(result).next_stop == old(result).next_stop && final(result).green
                == old(result).green) || strategy_fields_tethered(
                final(result).save,
                final(result).stops,
                final(result).next_stop,
                final(result).green,
                self.calc.spec_cfg(),
                self.calc.spec_laps(),
                self.calc.spec_def_green(),
                self.calc.spec_def_yellow(),
                frame,
            ),
    {
        let ends = frame.ends();
        match self.calc.strat(frame.fuel_level, ends) {
            None => {
            },
            Some(x) => {
                let ghost g_req = choose|req: crate::strat::StratRequest|
                    crate::history::strat_request_built(
                        self.calc.spec_cfg(),
                        self.calc.spec_laps(),
                        self.calc.spec_def_green(),
                        self.calc.spec_def_yellow(),
                        frame.fuel_level,
                        ends,
                        req,
                    ) && (crate::strat::req_wf(req) && crate::strat::strategy_matches(req, x));
                proof {
                    crate::strat::lemma_strategy_totals(g_req, x);
                }
                strat_to_result(&x, result);
                proof {
                    assert(strategy_fields_tethered(
                        result.save,
                        result.stops,
                        result.next_stop,
                        result.green,
                        self.calc.spec_cfg(),
                        self.calc.spec_laps(),
                        self.calc.spec_def_green(),
                        self.calc.spec_def_yellow(),
                        frame,
                    ));
                }
            },
        }
    }
}

/// The refuel command on the pit approach, tied to this session's own
/// state. With no green rate to estimate from, or when the request the
/// history builds yields no plan, a full tank is requested in whole
/// litres rounded up. Otherwise the litres cover the plan's total fuel
/// plus the larger refuel margin over what the tank already holds, and a
/// covered tank clears the request.
pub open spec fn approach_fuel_command(
    cmd: PitCommandMode,
    cfg: RaceSession,
    laps: Seq<Lap>,
    def_green: Option<Rate>,
    def_yellow: Option<Rate>,
    frame: TelemetryRow,
    settings: UserSettings,
) -> bool {
    ||| (crate::history::green_missing(laps, def_green) && cmd == PitCommandMode::Fuel(
        spec_clamp_litres((cfg.fuel_tank_size + 999) / 1000),
    ))
    ||| exists|ends: EndsWith, req: StratRequest|
        {
            &&& #[trigger] crate::history::strat_request_built(
                cfg,
                laps,
                def_green,
                def_yellow,
                frame.fuel_level,
                ends,
                req,
            )
            &&& spec_ends_matches(frame, ends)
            &&& if crate::history::time_bound_ok(req) && crate::strat::plan_len(req) > 0 {
                exists|s: Strategy|
                    #[trigger] crate::strat::strategy_matches(req, s) && crate::strat::req_wf(req)
                        && ({
                        let litres = spec_refuel_litres(
                            crate::strat::stints_fuel_total(s.stints@),
                            frame.fuel_level as int,
                            settings.extra_fuel as int,
                            settings.extra_laps as int,
                            s.green.fuel as int,
                        );
                        if litres > 0 {
                            cmd == PitCommandMode::Fuel(spec_clamp_litres(litres))
                        } else {
                            cmd == PitCommandMode::ClearFuel
                        }
                    })
            } else {
                cmd == PitCommandMode::Fuel(spec_clamp_litres((cfg.fuel_tank_size + 999) / 1000))
            }
        }
}

/// A snapshot that reads disconnected: the flag is down, every numeric
/// field is zero, both race axes are marked as estimates and no stop is
/// pending. Only the wall clock is free.
pub open spec fn estimation_disconnected(e: Estimation) -> bool {
    &&& !e.connected
    &&& e.car.fuel == 0 && e.car.laps == 0 && e.car.time@ == 0
    &&& e.race.fuel == 0 && e.race.laps == 0 && e.race.time@ == 0
    &&& e.race_tm_estimated && e.race_laps_estimated
    &&& e.fuel_last_lap == 0
    &&& e.green.fuel == 0 && e.green.time@ == 0
    &&& e.stops == 0
    &&& e.next_stop is None
    &&& e.save == 0
    &&& e.save_target == (0i64, 1u64)
    &&& e.track_temp_mc == 0
    &&& e.start_track_temp_mc == 0
}

/// What the telemetry source reported for one tick: no session to watch,
/// a new session with its record and first frame, a fresh frame of the
/// running session, or that the session is gone.
pub enum SourceEvent {
    NoSession,
    NewSession(RaceSession, TelemetryRow),
    Frame(TelemetryRow),
    Expired,
}

/// The top-level facade: holds at most one tracked session and turns
/// source events into estimation updates and pit commands. The caller
/// owns the telemetry source, polls it, and performs the commands.
pub struct Estimator {
    state: Option<SessionProgress>,
}

impl Estimator {
    /// Whether a session is being tracked.
    pub closed spec fn connected(&self) -> bool {
        self.state is Some
    }

    /// The tracked session, for specifications.
    pub closed spec fn spec_state(&self) -> Option<SessionProgress> {
        self.state
    }

    /// The facade's invariant: a tracked session is well formed.
    pub closed spec fn wf(&self) -> bool {
        match self.state {
            Some(s) => s.wf(),
            None => true,
        }
    }

    /// Starts disconnected.
    pub fn new() -> (r: Estimator)
        ensures
            r.wf(),
            !r.connected(),
    {
        Estimator { state: None }
    }

    /// Consumes one source event. A new session with acceptable limits
    /// connects; an expired session flushes its laps and disconnects; a
    /// frame of the running session advances the tracker and may yield
    /// pit commands; while disconnected the snapshot reads disconnected.
    pub fn update(
        &mut self,
        settings: &UserSettings,
        event: SourceEvent,
        db_file: Option<&str>,
        result: &mut Estimation,
    ) -> (cmds: Vec<PitCommandMode>)
        requires
            old(self).wf(),
            settings_wf(*settings),
        ensures
            final(self).wf(),
            event is Expired ==> !final(self).connected() && estimation_disconnected(
                *final(result),
            ),
            event is NoSession ==> final(self).connected() == old(self).connected(),
            event is NoSession && !old(self).connected() ==> estimation_disconnected(
                *final(result),
            ),
            event is NewSession && !old(self).connected() && !(session_wf(event->NewSession_0)
                && row_wf(event->NewSession_1)) ==> !final(self).connected()
                && estimation_disconnected(*final(result)),
            event is NewSession && !old(self).connected() && session_wf(event->NewSession_0)
                && row_wf(event->NewSession_1) ==> final(self).connected(),
            event is NewSession && !old(self).connected() && session_wf(event->NewSession_0)
                && row_wf(event->NewSession_1) ==> final(result).connected,
            event is NewSession && !old(self).connected() && session_wf(event->NewSession_0)
                && row_wf(event->NewSession_1)
                ==> (final(self).spec_state()->Some_0).spec_last() == event->NewSession_1,
            event is Frame && old(self).connected() && row_wf(event->Frame_0)
                ==> final(self).connected(),
            event is Frame && old(self).connected() && row_wf(event->Frame_0)
                ==> (final(self).spec_state()->Some_0).spec_last() == event->Frame_0,
            cmds@.len() > 0 ==> event is Frame && old(self).connected(),
    {
        match event {
            SourceEvent::NoSession => {
                if self.state.is_none() {
                    *result = Estimation::default();
                }
                Vec::new()
            },
            SourceEvent::NewSession(cfg, first) => {
                if self.state.is_none() {
                    let cfg_ok = cfg.fuel_tank_size <= MAX_FUEL_MILLI && cfg.min_fuel
                        <= MAX_FUEL_MILLI;
                    if cfg_ok && first.check_wf() {
                        self.state = Some(SessionProgress::new(cfg, db_file, first));
                        result.connected = true;
                    } else {
                        *result = Estimation::default();
                    }
                }
                Vec::new()
            },
            SourceEvent::Expired => {
                match &mut self.state {
                    Some(s) => {
                        let _ = s.flush();
                    },
                    None => {
                    },
                }
                self.state = None;
                *result = Estimation::default();
                Vec::new()
            },
            SourceEvent::Frame(row) => {
                match &mut self.state {
                    Some(s) => {
                        if row.check_wf() {
                            s.update(settings, row, result)
                        } else {
                            Vec::new()
                        }
                    },
                    None => Vec::new(),
                }
            },
        }
    }
}

/// A litre request clamped onto the wire's sixteen-bit field.
pub open spec fn spec_clamp_litres(l: int) -> i16
    recommends
        l >= 0,
{
    if 0 <= l <= 32767 {
        l as i16
    } else {
        32767i16
    }
}

/// Clamps a litre request onto the wire's sixteen-bit field.
fn clamp_litres(litres: u64) -> (r: i16)
    ensures
        r == spec_clamp_litres(litres as int),
{
    if litres <= 32767 {
        litres as i16
    } else {
        32767
    }
}

/// The time the remaining fuel lasts at the green rate: the green lap
/// time scaled by the laps the fuel covers.
fn car_time_left(fuel_level: u64, green: &Rate) -> (r: TimeSpan)
    requires
        green.fuel >= 1,
        fuel_level <= MAX_FUEL_MILLI,
        green.time@ <= MAX_LAP_AVG_NANOS,
    ensures
        r@ == fuel_level * green.time@ / (green.fuel as int),
{
    let tn: u128 = green.time.total_nanos();
    proof {
        assert((fuel_level as int) * green.time@ <= (MAX_FUEL_MILLI as int) * (
        MAX_LAP_AVG_NANOS as int)) by (nonlinear_arith)
            requires
                0 <= fuel_level <= MAX_FUEL_MILLI,
                0 <= green.time@ <= MAX_LAP_AVG_NANOS,
        ;
        assert((fuel_level as int) * green.time@ / (green.fuel as int) <= (fuel_level as int)
            * green.time@) by (nonlinear_arith)
            requires
                green.fuel >= 1,
                0 <= (fuel_level as int) * green.time@,
        ;
    }
    let nanos: u128 = fuel_level as u128 * tn / green.fuel as u128;
    timespan_from_nanos(nanos)
}

/// Builds a duration from a nanosecond count that fits the range.
fn timespan_from_nanos(nanos: u128) -> (r: TimeSpan)
    requires
        nanos < crate::timespan::nano_limit(),
    ensures
        r@ == nanos,
{
    proof {
        assert(nanos / 1_000_000_000 < 0x10000000000000000) by (nonlinear_arith)
            requires
                nanos < crate::timespan::nano_limit(),
        ;
    }
    let secs: u64 = (nanos / 1_000_000_000) as u64;
    let sub: u32 = (nanos % 1_000_000_000) as u32;
    let r = TimeSpan::new(secs, sub);
    proof {
        assert(secs * 1_000_000_000 + sub == nanos) by (nonlinear_arith)
            requires
                secs == nanos / 1_000_000_000,
                sub == nanos % 1_000_000_000,
        ;
    }
    r
}

} // verus!
