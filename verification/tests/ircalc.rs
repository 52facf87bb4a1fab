//! Estimator tests: lap-time interpolation, frame helpers, and the
//! session state machine driven by hand-built frames.

use naf_calc::history::RaceSession;
use naf_calc::ircalc::interpolate_checkpoint_time;
use naf_calc::ircalc::refuel_litres;
use naf_calc::ircalc::Estimation;
use naf_calc::ircalc::Estimator;
use naf_calc::ircalc::SourceEvent;
use naf_calc::ircalc::TelemetryRow;
use naf_calc::ircalc::UserSettings;
use naf_calc::ircalc::UNLIMITED_LAPS;
use naf_calc::ircalc::UNLIMITED_TIME_US;
use naf_calc::strat::EndsWith;
use naf_calc::telemetry::Flags;
use naf_calc::telemetry::PitCommandMode;
use naf_calc::telemetry::SessionState;
use naf_calc::telemetry::TrackLocation;
use naf_calc::timespan::TimeSpan;

fn secs_of(t: TimeSpan) -> f64 {
    t.as_secs() as f64 + t.subsec_nanos() as f64 * 1e-9
}

#[test]
fn test_interopolate_tm() {
    let tm = interpolate_checkpoint_time(980_000, 112_100_000, 20_000, 112_300_000, 0);
    assert!(f64::abs(secs_of(tm) - 112.2) < 0.0001);

    let tm2 = interpolate_checkpoint_time(980_000, 112_100_000, 20_000, 112_500_000, 0);
    assert!(f64::abs(secs_of(tm2) - 112.3) < 0.0001);

    let tm3 = interpolate_checkpoint_time(990_000, 112_100_000, 20_000, 112_400_000, 0);
    assert!(f64::abs(secs_of(tm3) - 112.2) < 0.0001);
}

fn frame(session_time_us: i64, lap_progress_ppm: u32, fuel_level: u64) -> TelemetryRow {
    TelemetryRow {
        session_num: 0,
        session_time_us,
        is_on_track: true,
        player_track_surface: TrackLocation::OnTrack,
        session_state: SessionState::Racing,
        session_flags: Flags::new(0),
        session_time_remain_us: UNLIMITED_TIME_US,
        session_laps_remain: 10,
        session_time_total_us: UNLIMITED_TIME_US,
        session_laps_total: 12,
        lap: 1,
        lap_completed: 0,
        race_laps: 1,
        fuel_level,
        lap_progress_ppm,
        track_temp_mc: 31_500,
    }
}

#[test]
fn ends_axis_selection() {
    // Time unlimited and laps given: a lap-limited race.
    let f = frame(100_000_000, 500_000, 9000);
    assert_eq!(EndsWith::Laps(10), f.ends());
    // During the parade laps the totals rule instead.
    let mut p = f;
    p.session_state = SessionState::ParadeLaps;
    assert_eq!(EndsWith::Laps(12), p.ends());
    // Laps unlimited and time given: a timed race.
    let mut t = f;
    t.session_laps_remain = UNLIMITED_LAPS;
    t.session_time_remain_us = 300_000_000;
    assert_eq!(EndsWith::Time(TimeSpan::new(300, 0)), t.ends());
    // Both limited: whichever comes first.
    let mut b = f;
    b.session_time_remain_us = 300_000_000;
    assert_eq!(
        EndsWith::LapsOrTime(10, TimeSpan::new(300, 0)),
        b.ends()
    );
    // Both unlimited: treated as a thirty-minute practice.
    let mut u = f;
    u.session_laps_remain = UNLIMITED_LAPS;
    assert_eq!(EndsWith::Time(TimeSpan::new(1700, 0)), u.ends());
}

#[test]
fn lap_state_of_frame() {
    let clean = frame(0, 0, 9000);
    assert!(clean.lap_state().is_empty());
    let mut caution = clean;
    caution.session_flags = Flags::new(naf_calc::telemetry::FLAG_CAUTION);
    assert_eq!(0x01, caution.lap_state().bits);
    let mut otg = caution;
    otg.session_flags = Flags::new(
        naf_calc::telemetry::FLAG_CAUTION | naf_calc::telemetry::FLAG_ONE_TO_GREEN,
    );
    assert_eq!(0x09, otg.lap_state().bits);
    let mut pit = clean;
    pit.player_track_surface = TrackLocation::InPitStall;
    assert_eq!(0x02, pit.lap_state().bits);
    let mut pace = clean;
    pace.session_state = SessionState::Warmup;
    assert_eq!(0x04, pace.lap_state().bits);
    // One-to-green without a caution does not mark the lap.
    let mut lone = clean;
    lone.session_flags = Flags::new(naf_calc::telemetry::FLAG_ONE_TO_GREEN);
    assert!(lone.lap_state().is_empty());
}

#[test]
fn refuel_litres_rounds_up() {
    // 5.0 l planned plus max(1.0, 0.5 * 2) margin, 4.2 l on board:
    // 1.8 l needed, requested as 2 whole litres.
    assert_eq!(2, refuel_litres(5000, 4200, 1000, 2000, 500));
    // Enough on board: nothing to add.
    assert_eq!(0, refuel_litres(5000, 6000, 1000, 2000, 500));
    // The lap margin wins when it is larger: 4.5 l of margin brings the
    // need to 5.3 l, requested as 6.
    assert_eq!(6, refuel_litres(5000, 4200, 1000, 3000, 1500));
}

#[test]
fn estimator_records_a_lap() {
    let cfg = RaceSession {
        fuel_tank_size: 10000,
        max_fuel_save: 0,
        min_fuel: 0,
        track_id: 7,
        track_name: "Test".to_string(),
        layout_name: "Oval".to_string(),
        car_id: 3,
        car: "PM 18".to_string(),
    };
    let settings = UserSettings::default();
    let mut est = Estimator::new();
    let mut out = Estimation::default();
    assert!(!out.connected);

    let first = frame(100_000_000, 950_000, 9500);
    let cmds = est.update(&settings, SourceEvent::NewSession(cfg, first), None, &mut out);
    assert!(cmds.is_empty());
    assert!(out.connected);

    // Crossing the line: the lap took 0.5 s and 0.5 l.
    let second = frame(101_000_000, 50_000, 9000);
    let cmds = est.update(&settings, SourceEvent::Frame(second), None, &mut out);
    assert!(cmds.is_empty());
    assert_eq!(500, out.fuel_last_lap);
    assert_eq!(9000, out.car.fuel);
    // Ten laps at 0.5 l each fit the tank: one stint, no stops.
    assert_eq!(0, out.stops);
    assert_eq!(None, out.next_stop);
    assert_eq!(10_000, out.race.laps);
    // the plan put 5.0 l on the race axis; this tick's 0.5 l burn has
    // already been taken off it
    assert_eq!(4500, out.race.fuel);
    // 9.0 l at 0.5 l per lap leaves 18 laps in the car.
    assert_eq!(18_000, out.car.laps);
    assert_eq!(31_500, out.track_temp_mc);

    // Turning onto the pit approach with plenty on board clears the
    // refuel request.
    let mut approach = frame(130_000_000, 300_000, 8800);
    approach.player_track_surface = TrackLocation::ApproachingPits;
    let cmds = est.update(&settings, SourceEvent::Frame(approach), None, &mut out);
    assert_eq!(vec![PitCommandMode::ClearFuel], cmds);

    // Expiring the session disconnects and resets the snapshot.
    let _ = est.update(&settings, SourceEvent::Expired, None, &mut out);
    assert!(!out.connected);
}

#[test]
fn estimator_requests_fuel_when_short() {
    let cfg = RaceSession {
        fuel_tank_size: 10000,
        max_fuel_save: 0,
        min_fuel: 0,
        track_id: 7,
        track_name: "Test".to_string(),
        layout_name: "Oval".to_string(),
        car_id: 3,
        car: "PM 18".to_string(),
    };
    let settings = UserSettings::default();
    let mut est = Estimator::new();
    let mut out = Estimation::default();

    let mut first = frame(100_000_000, 950_000, 3000);
    first.session_laps_remain = 8;
    let _ = est.update(&settings, SourceEvent::NewSession(cfg, first), None, &mut out);

    // A 1.0 l lap: eight more such laps will not fit the 2.5 l left.
    let mut second = frame(101_000_000, 50_000, 2000);
    second.session_laps_remain = 8;
    let _ = est.update(&settings, SourceEvent::Frame(second), None, &mut out);

    let mut approach = frame(102_000_000, 100_000, 1900);
    approach.session_laps_remain = 8;
    approach.player_track_surface = TrackLocation::ApproachingPits;
    let cmds = est.update(&settings, SourceEvent::Frame(approach), None, &mut out);
    // 8 laps at 1.0 l plus max(1.0, 2 laps) margin, minus 1.9 l on
    // board: 8.1 l, requested as 9 whole litres.
    assert_eq!(vec![PitCommandMode::Fuel(9)], cmds);
}

#[test]
fn estimator_tire_commands() {
    let cfg = RaceSession {
        fuel_tank_size: 10000,
        max_fuel_save: 0,
        min_fuel: 0,
        track_id: 7,
        track_name: "Test".to_string(),
        layout_name: "Oval".to_string(),
        car_id: 3,
        car: "PM 18".to_string(),
    };
    let mut settings = UserSettings::default();
    settings.take_tires = true;
    let mut est = Estimator::new();
    let mut out = Estimation::default();

    let first = frame(100_000_000, 950_000, 9500);
    let _ = est.update(&settings, SourceEvent::NewSession(cfg, first), None, &mut out);
    let second = frame(101_000_000, 50_000, 9000);
    let _ = est.update(&settings, SourceEvent::Frame(second), None, &mut out);
    let mut approach = frame(130_000_000, 300_000, 8800);
    approach.player_track_surface = TrackLocation::ApproachingPits;
    let cmds = est.update(&settings, SourceEvent::Frame(approach), None, &mut out);
    assert_eq!(
        vec![
            PitCommandMode::LF(0),
            PitCommandMode::RF(0),
            PitCommandMode::LR(0),
            PitCommandMode::RR(0),
            PitCommandMode::ClearFuel,
        ],
        cmds
    );
}

#[test]
fn estimator_full_tank_without_strategy() {
    // With no lap recorded and no stored defaults there is no strategy;
    // approaching the pits then requests a full tank in whole litres.
    let cfg = RaceSession {
        fuel_tank_size: 10000,
        max_fuel_save: 0,
        min_fuel: 0,
        track_id: 7,
        track_name: "Test".to_string(),
        layout_name: "Oval".to_string(),
        car_id: 3,
        car: "PM 18".to_string(),
    };
    let settings = UserSettings::default();
    let mut est = Estimator::new();
    let mut out = Estimation::default();

    let first = frame(100_000_000, 400_000, 9500);
    let _ = est.update(&settings, SourceEvent::NewSession(cfg, first), None, &mut out);
    let mut approach = frame(101_000_000, 450_000, 9400);
    approach.player_track_surface = TrackLocation::ApproachingPits;
    let cmds = est.update(&settings, SourceEvent::Frame(approach), None, &mut out);
    assert_eq!(vec![PitCommandMode::Fuel(10)], cmds);
}

#[test]
fn estimator_session_reset_restarts_anchors() {
    let cfg = RaceSession {
        fuel_tank_size: 10000,
        max_fuel_save: 0,
        min_fuel: 0,
        track_id: 7,
        track_name: "Test".to_string(),
        layout_name: "Oval".to_string(),
        car_id: 3,
        car: "PM 18".to_string(),
    };
    let settings = UserSettings::default();
    let mut est = Estimator::new();
    let mut out = Estimation::default();

    let first = frame(500_000_000, 950_000, 9500);
    let _ = est.update(&settings, SourceEvent::NewSession(cfg, first), None, &mut out);
    // The clock jumps backwards: a new sub-session. The progress wrap
    // across the jump must not count as a lap.
    let jumped = frame(1_000_000, 50_000, 9500);
    let _ = est.update(&settings, SourceEvent::Frame(jumped), None, &mut out);
    assert_eq!(0, out.fuel_last_lap);
    assert_eq!(9500, out.car.fuel);
}

#[test]
fn default_estimation_is_disconnected() {
    let e = Estimation::default();
    assert!(!e.connected);
    assert_eq!(0, e.car.fuel);
    assert_eq!(0, e.race.fuel);
    assert!(e.race_tm_estimated);
    assert!(e.race_laps_estimated);
    assert_eq!((0, 1), e.save_target);
    // the wall clock was read for the snapshot
    assert!(e.now_ms > 0);
}

#[test]
fn default_settings_values() {
    let s = UserSettings::default();
    assert_eq!(150, s.max_fuel_save);
    assert_eq!(200, s.min_fuel);
    assert_eq!(2000, s.extra_laps);
    assert_eq!(1000, s.extra_fuel);
    assert!(!s.clear_tires);
    assert!(!s.take_tires);
}
