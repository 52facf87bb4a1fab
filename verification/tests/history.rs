//! History tests: rate estimation from recorded laps, strategy requests,
//! and the persistent lap store.

use naf_calc::history::History;
use naf_calc::history::RaceSession;
use naf_calc::strat::EndsWith;
use naf_calc::strat::Lap;
use naf_calc::strat::LapState;
use naf_calc::strat::Pitstop;
use naf_calc::timespan::TimeSpan;

fn cfg() -> RaceSession {
    RaceSession {
        fuel_tank_size: 10000,
        max_fuel_save: 0,
        min_fuel: 0,
        track_id: 1,
        track_name: "Test".to_string(),
        layout_name: "Oval".to_string(),
        car_id: 1,
        car: "PM 18".to_string(),
    }
}

#[test]
fn history_no_laps() {
    // Note in the future a previously calc/saved green rate would be
    // loaded and this would generate a starting strategy
    let calc = History::new(cfg(), None).unwrap();
    let strat = calc.strat(10000, EndsWith::Laps(50));
    assert!(strat.is_none());
}

#[test]
fn history_one_lap() {
    let mut calc = History::new(cfg(), None).unwrap();
    calc.add_lap(Lap {
        fuel_left: 9500,
        fuel_used: 500,
        time: TimeSpan::new(30, 0),
        condition: LapState::empty(),
    });
    let strat = calc.strat(9500, EndsWith::Laps(49)).unwrap();
    assert_eq!(vec![19, 20, 10], strat.laps());
    assert_eq!(vec![Pitstop::new(9, 19), Pitstop::new(29, 39)], strat.stops);
}

#[test]
fn history_five_laps() {
    let mut calc = History::new(cfg(), None).unwrap();
    let mut lap = Lap {
        fuel_left: 9500,
        fuel_used: 500,
        time: TimeSpan::new(30, 0),
        condition: LapState::empty(),
    };
    calc.add_lap(lap);
    let strat = calc.strat(9500, EndsWith::Laps(49)).unwrap();
    assert_eq!(vec![19, 20, 10], strat.laps());
    assert_eq!(vec![Pitstop::new(9, 19), Pitstop::new(29, 39)], strat.stops);
    lap.fuel_left -= 500;
    calc.add_lap(lap);
    lap.fuel_left -= 500;
    calc.add_lap(lap);
    lap.fuel_left -= 500;
    calc.add_lap(lap);
    lap.fuel_left -= 500;
    calc.add_lap(lap);
    let strat = calc.strat(7500, EndsWith::Laps(45)).unwrap();
    assert_eq!(vec![15, 20, 10], strat.laps());
    assert_eq!(vec![Pitstop::new(5, 15), Pitstop::new(25, 35)], strat.stops);
}

#[test]
fn history_yellow() {
    let mut calc = History::new(cfg(), None).unwrap();
    let mut lap = Lap {
        fuel_left: 9000,
        fuel_used: 1000,
        time: TimeSpan::new(30, 0),
        condition: LapState::empty(),
    };
    calc.add_lap(lap);
    let strat = calc.strat(9000, EndsWith::Laps(49)).unwrap();
    assert_eq!(vec![9, 10, 10, 10, 10], strat.laps());

    lap.fuel_left -= 1000;
    calc.add_lap(lap);
    lap.fuel_left -= 1000;
    calc.add_lap(lap);
    lap.fuel_left -= 1000;
    calc.add_lap(lap);
    let strat = calc.strat(6000, EndsWith::Laps(46)).unwrap();
    assert_eq!(vec![6, 10, 10, 10, 10], strat.laps());

    lap.fuel_left -= 500;
    lap.condition = LapState::yellow();
    calc.add_lap(lap);
    lap.fuel_left -= 100;
    lap.condition = LapState::yellow();
    calc.add_lap(lap);

    let strat = calc.strat(5400, EndsWith::Laps(44)).unwrap();
    assert_eq!(vec![5, 10, 10, 10, 9], strat.laps());
}

fn lap_of(fuel_used: u64, fuel_left: u64) -> Lap {
    Lap {
        fuel_used,
        fuel_left,
        time: TimeSpan::new(30, 0),
        condition: LapState::empty(),
    }
}

#[test]
fn append_laps_writes_each_lap_once() {
    // Saving twice with the same lap list writes each lap exactly once:
    // the second save finds nothing past the high-water mark.
    let mut calc = History::new(cfg(), Some(":memory:")).unwrap();
    calc.add_lap(lap_of(500, 9500));
    calc.add_lap(lap_of(500, 9000));
    calc.add_lap(lap_of(500, 8500));
    calc.save_laps().unwrap();
    assert_eq!(Some(3), calc.stored_lap_rows());
    calc.save_laps().unwrap();
    assert_eq!(Some(3), calc.stored_lap_rows());
    // a further lap is written exactly once as well
    calc.add_lap(lap_of(500, 8000));
    calc.save_laps().unwrap();
    calc.save_laps().unwrap();
    assert_eq!(Some(4), calc.stored_lap_rows());
}

#[test]
fn history_without_store() {
    // Without a store there is nothing to save and no rows to read.
    let mut calc = History::new(cfg(), None).unwrap();
    calc.add_lap(lap_of(500, 9500));
    assert!(calc.save_laps().is_ok());
    assert_eq!(None, calc.stored_lap_rows());
}

#[test]
fn history_with_unopenable_store() {
    // A store path that cannot be opened degrades to no store at all;
    // the session still runs.
    let mut calc = History::new(cfg(), Some("/this/path/does/not/exist/laps.db")).unwrap();
    calc.add_lap(lap_of(500, 9500));
    assert!(calc.save_laps().is_ok());
    assert_eq!(None, calc.stored_lap_rows());
    let strat = calc.strat(9500, EndsWith::Laps(10));
    assert!(strat.is_some());
}

#[test]
fn history_config_round_trip() {
    let calc = History::new(cfg(), None).unwrap();
    let c = calc.config();
    assert_eq!(10000, c.fuel_tank_size);
    assert_eq!("Test", c.track_name);
    assert_eq!("Oval", c.layout_name);
    assert_eq!("PM 18", c.car);
    assert_eq!(1, c.track_id);
    assert_eq!(1, c.car_id);
}

#[test]
fn one_green_lap_beats_no_default() {
    // With exactly one green lap and no stored default, the live value
    // wins; the quirk that a stored default would win over a single lap
    // cannot arise without a store.
    let mut calc = History::new(cfg(), None).unwrap();
    calc.add_lap(lap_of(750, 9250));
    let s = calc.strat(9250, EndsWith::Laps(4)).unwrap();
    assert_eq!(vec![4], s.laps());
    assert_eq!(750 * 4, s.total_fuel());
}
