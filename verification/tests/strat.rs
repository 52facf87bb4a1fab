//! Planner and duration tests. Fuel is in milli-litres, the fuel-save
//! share in per-mille.

use naf_calc::strat::EndsWith;
use naf_calc::strat::Lap;
use naf_calc::strat::LapState;
use naf_calc::strat::Pitstop;
use naf_calc::strat::Rate;
use naf_calc::strat::StratRequest;
use naf_calc::timespan::TimeSpan;
use std::str::FromStr;
use std::time::Duration;

#[test]
fn rate_add() {
    let s = Rate {
        fuel: 500,
        time: TimeSpan::new(3, 0),
    };
    let l = Lap {
        fuel_used: 300,
        fuel_left: 4100,
        time: TimeSpan::new(5, 0),
        condition: LapState::empty(),
    };
    let r = s.add(&l);
    assert_eq!(
        r,
        Rate {
            fuel: 800,
            time: TimeSpan::new(8, 0)
        }
    );
}

#[test]
fn strat_no_stops() {
    let d = TimeSpan::new(40, 0);
    let r = StratRequest {
        fuel_left: 9500,
        tank_size: 20000,
        max_fuel_save: 0,
        min_fuel: 0,
        yellow_togo: 0,
        ends: EndsWith::Laps(5),
        green: Rate { fuel: 500, time: d },
        yellow: Rate { fuel: 100, time: d },
    };
    let s = r.compute().unwrap();
    assert_eq!(vec![5], s.laps());
    assert_eq!(Vec::<Pitstop>::new(), s.stops);
}

#[test]
fn strat_timed_race() {
    let d = TimeSpan::new(25, 0);
    let r = StratRequest {
        fuel_left: 20000,
        tank_size: 20000,
        max_fuel_save: 0,
        min_fuel: 0,
        yellow_togo: 0,
        ends: EndsWith::Time(TimeSpan::new(105, 0)),
        green: Rate { fuel: 500, time: d },
        yellow: Rate { fuel: 100, time: d },
    };
    let s = r.compute().unwrap();
    assert_eq!(vec![5], s.laps());
}

#[test]
fn strat_race_over() {
    let d = TimeSpan::new(40, 0);
    let r = StratRequest {
        fuel_left: 900,
        tank_size: 20000,
        max_fuel_save: 100,
        min_fuel: 0,
        yellow_togo: 0,
        ends: EndsWith::Laps(0),
        green: Rate { fuel: 500, time: d },
        yellow: Rate { fuel: 100, time: d },
    };
    let s = r.compute();
    assert!(s.is_none());
}

#[test]
fn strat_one_stop_laps() {
    let d = TimeSpan::new(40, 0);
    let r = StratRequest {
        fuel_left: 9500,
        tank_size: 10000,
        max_fuel_save: 0,
        min_fuel: 0,
        yellow_togo: 0,
        ends: EndsWith::Laps(34),
        green: Rate { fuel: 500, time: d },
        yellow: Rate { fuel: 100, time: d },
    };
    let s = r.compute().unwrap();
    assert_eq!(vec![19, 15], s.laps());
    assert_eq!(vec![Pitstop::new(14, 19)], s.stops);
}

#[test]
fn strat_one_stop_time() {
    let d = TimeSpan::new(30, 0);
    let r = StratRequest {
        fuel_left: 5000,
        tank_size: 10000,
        max_fuel_save: 0,
        min_fuel: 0,
        yellow_togo: 2,
        ends: EndsWith::Time(TimeSpan::new(300, 0)),
        green: Rate { fuel: 1000, time: d },
        yellow: Rate {
            fuel: 100,
            time: TimeSpan::new(55, 0),
        },
    };
    let s = r.compute().unwrap();
    assert_eq!(vec![6, 3], s.laps());
    assert_eq!(vec![Pitstop::new(0, 6)], s.stops);
}

#[test]
fn strat_one_stop_laps_or_time_ends_on_time() {
    let d = TimeSpan::new(30, 0);
    let r = StratRequest {
        fuel_left: 5000,
        tank_size: 10000,
        max_fuel_save: 0,
        min_fuel: 0,
        yellow_togo: 2,
        ends: EndsWith::LapsOrTime(100, TimeSpan::new(300, 0)),
        green: Rate { fuel: 1000, time: d },
        yellow: Rate {
            fuel: 100,
            time: TimeSpan::new(55, 0),
        },
    };
    let s = r.compute().unwrap();
    assert_eq!(vec![6, 3], s.laps());
    assert_eq!(vec![Pitstop::new(0, 6)], s.stops);
}

#[test]
fn strat_one_stop_laps_or_time_ends_on_laps() {
    let d = TimeSpan::new(30, 0);
    let r = StratRequest {
        fuel_left: 5000,
        tank_size: 10000,
        max_fuel_save: 0,
        min_fuel: 0,
        yellow_togo: 2,
        ends: EndsWith::LapsOrTime(10, TimeSpan::new(3000, 0)),
        green: Rate { fuel: 1000, time: d },
        yellow: Rate {
            fuel: 100,
            time: TimeSpan::new(60, 0),
        },
    };
    let s = r.compute().unwrap();
    assert_eq!(vec![6, 4], s.laps());
    assert_eq!(vec![Pitstop::new(0, 6)], s.stops);
}

#[test]
fn strat_one_stop_yellow() {
    let d = TimeSpan::new(25, 0);
    let r = StratRequest {
        fuel_left: 9500,
        tank_size: 10000,
        max_fuel_save: 0,
        min_fuel: 0,
        yellow_togo: 3,
        ends: EndsWith::Laps(23),
        green: Rate { fuel: 500, time: d },
        yellow: Rate {
            fuel: 100,
            time: d.times(5),
        },
    };
    let s = r.compute().unwrap();
    assert_eq!(vec![21, 2], s.laps());
    assert_eq!(vec![Pitstop::new(3, 21)], s.stops);
}

#[test]
fn strat_two_stops() {
    let d = TimeSpan::new(40, 0);
    let r = StratRequest {
        fuel_left: 9300,
        tank_size: 10000,
        min_fuel: 0,
        max_fuel_save: 0,
        yellow_togo: 0,
        ends: EndsWith::Laps(49),
        green: Rate { fuel: 500, time: d },
        yellow: Rate { fuel: 100, time: d },
    };
    let s = r.compute().unwrap();
    assert_eq!(vec![18, 20, 11], s.laps());
    assert_eq!(vec![Pitstop::new(9, 18), Pitstop::new(29, 38)], s.stops);
}

#[test]
fn strat_one_stop_big_window() {
    let d = TimeSpan::new(40, 0);
    let r = StratRequest {
        fuel_left: 9300,
        tank_size: 10000,
        min_fuel: 0,
        max_fuel_save: 0,
        yellow_togo: 0,
        ends: EndsWith::Laps(24),
        green: Rate { fuel: 500, time: d },
        yellow: Rate { fuel: 100, time: d },
    };
    let s = r.compute().unwrap();
    assert_eq!(vec![18, 6], s.laps());
    assert_eq!(vec![Pitstop::new(4, 18)], s.stops);
}

#[test]
fn strat_two_stops_with_splash() {
    let d = TimeSpan::new(40, 0);
    let r = StratRequest {
        fuel_left: 1500,
        tank_size: 10000,
        min_fuel: 0,
        max_fuel_save: 0,
        yellow_togo: 0,
        ends: EndsWith::Laps(29),
        green: Rate { fuel: 500, time: d },
        yellow: Rate { fuel: 100, time: d },
    };
    let s = r.compute().unwrap();
    assert_eq!(vec![3, 20, 6], s.laps());
    assert_eq!(vec![Pitstop::new(0, 3), Pitstop::new(9, 23)], s.stops);
}

#[test]
fn strat_two_stops_only_just() {
    let d = TimeSpan::new(40, 0);
    let r = StratRequest {
        fuel_left: 9600,
        tank_size: 10000,
        min_fuel: 0,
        max_fuel_save: 0,
        yellow_togo: 0,
        ends: EndsWith::Laps(58),
        green: Rate { fuel: 500, time: d },
        yellow: Rate { fuel: 100, time: d },
    };
    let s = r.compute().unwrap();
    assert_eq!(vec![19, 20, 19], s.laps());
    assert_eq!(vec![Pitstop::new(18, 19), Pitstop::new(38, 39)], s.stops);
}

#[test]
fn strat_two_stops_fuel_save() {
    let d = TimeSpan::new(40, 0);
    let r = StratRequest {
        fuel_left: 9000,
        tank_size: 20000,
        min_fuel: 0,
        max_fuel_save: 100,
        yellow_togo: 0,
        ends: EndsWith::Laps(50),
        green: Rate { fuel: 1000, time: d },
        yellow: Rate {
            fuel: 100,
            time: d.times(4),
        },
    };
    let s = r.compute().unwrap();
    assert_eq!(vec![9, 20, 20, 1], s.laps());
    assert_eq!(
        vec![
            Pitstop::new(0, 9),
            Pitstop::new(10, 29),
            Pitstop::new(30, 49)
        ],
        s.stops
    );
    // if you can save 1 litre, you can skip the last pit stop
    assert_eq!(1000, s.fuel_to_save);
    // 49 l to the last stint, minus the 1.0 l we need to save, over the
    // 49 laps to get there, gives the per-lap fuel target
    let (target_fuel, target_laps) = s.fuel_target();
    assert_eq!(48000, target_fuel);
    assert_eq!(49, target_laps);
    assert_eq!(
        (9.0 + 20.0 + 20.0 - 1.0) / 49.0,
        (target_fuel as f32 / 1000.0) / target_laps as f32
    );
}

#[test]
fn test_timespan_parse() {
    assert_eq!(TimeSpan::from_str("00:10").unwrap().as_secs(), 10);
    assert_eq!(TimeSpan::from_str("05:10").unwrap().as_secs(), 310);
    assert_eq!(TimeSpan::from_str("01:05:10").unwrap().as_secs(), 3910);
    assert_eq!(TimeSpan::from_str(" 05:10 ").unwrap().as_secs(), 310);
    assert_eq!(TimeSpan::from_str("    01:05:10 ").unwrap().as_secs(), 3910);
    assert!(TimeSpan::from_str("").is_err());
    assert!(TimeSpan::from_str("bob").is_err());
}

#[test]
fn test_timespan_display() {
    assert_eq!(TimeSpan::of(Duration::ZERO).display(), "00:00");
    assert_eq!(TimeSpan::new(5, 0).display(), "00:05");
    assert_eq!(TimeSpan::new(35, 0).display(), "00:35");
    assert_eq!(TimeSpan::new(59, 0).display(), "00:59");
    assert_eq!(TimeSpan::new(60, 0).display(), "01:00");
    assert_eq!(TimeSpan::new(65, 0).display(), "01:05");
    assert_eq!(TimeSpan::new(60 * 59, 0).display(), "59:00");
    assert_eq!(TimeSpan::new(3600, 0).display(), "1:00:00");
    assert_eq!(TimeSpan::new(3600 * 5 + 5, 0).display(), "5:00:05");
}

#[test]
fn timespan_round_trip() {
    // Parsing a rendered whole-second duration under one hundred hours
    // gives the duration back.
    for secs in [0u64, 5, 59, 60, 61, 3599, 3600, 3661, 35999, 36000, 359999] {
        let t = TimeSpan::new(secs, 0);
        let back = TimeSpan::from_str(&t.display()).unwrap();
        assert_eq!(t, back);
    }
}

#[test]
fn timespan_parse_rejects() {
    assert_eq!(TimeSpan::from_str("1:1:10"), Err(naf_calc::timespan::ParseError::Empty));
    assert!(TimeSpan::from_str("123:00:00").is_err());
    assert!(TimeSpan::from_str("0:10").is_err());
    assert!(TimeSpan::from_str("00:10:").is_err());
    assert!(TimeSpan::from_str("  ").is_err());
    // two-digit fields up to 99 are accepted, as minutes and seconds
    assert_eq!(TimeSpan::from_str("99:99").unwrap().as_secs(), 99 * 60 + 99);
    // at one hundred hours the hour field outgrows the parser: the
    // round trip stops there
    let t = TimeSpan::new(360_000, 0);
    assert_eq!(t.display(), "100:00:00");
    assert!(TimeSpan::from_str(&t.display()).is_err());
}

#[test]
fn timespan_parse_unicode_whitespace() {
    // Any Unicode whitespace may surround the duration, as a pattern
    // space class would trim.
    assert_eq!(TimeSpan::from_str("\u{a0}05:10\u{3000}").unwrap().as_secs(), 310);
    assert_eq!(TimeSpan::from_str("\u{2009}01:05:10\t").unwrap().as_secs(), 3910);
    assert!(TimeSpan::from_str("\u{a0}\u{2028}").is_err());
}

#[test]
fn fuel_target_can_go_negative() {
    // With a save share above one half, the planned saving can exceed
    // the fuel spent before the last stint; the target then goes
    // negative, telling the driver the save is already more than the
    // whole run to the last stop.
    let d = TimeSpan::new(40, 0);
    let r = StratRequest {
        fuel_left: 5000,
        tank_size: 20000,
        min_fuel: 0,
        max_fuel_save: 800,
        yellow_togo: 0,
        ends: EndsWith::Laps(15),
        green: Rate { fuel: 1000, time: d },
        yellow: Rate { fuel: 100, time: d },
    };
    let s = r.compute().unwrap();
    assert_eq!(vec![5, 10], s.laps());
    assert_eq!(10000, s.fuel_to_save);
    assert_eq!((-5000, 5), s.fuel_target());
}

#[test]
fn timespan_of_normalizes() {
    // A duration built from an overflowing nanosecond part carries into
    // whole seconds, matching the standard duration's shape.
    let t = TimeSpan::of(Duration::new(65, 1_500_000_000));
    assert_eq!(t.as_secs(), 66);
    assert_eq!(t.subsec_nanos(), 500_000_000);
    assert_eq!(t, TimeSpan::new(66, 500_000_000));
}

#[test]
fn timespan_arithmetic() {
    let a = TimeSpan::new(90, 500_000_000);
    let b = TimeSpan::new(30, 700_000_000);
    assert_eq!(a.plus(b), TimeSpan::new(121, 200_000_000));
    assert_eq!(a.minus(b), TimeSpan::new(59, 800_000_000));
    assert_eq!(b.times(3), TimeSpan::new(92, 100_000_000));
    assert_eq!(a.div_by(2), TimeSpan::new(45, 250_000_000));
    assert_eq!(a.min(b), b);
    assert!(b.le(&a));
    assert!(!a.le(&b));
}

#[test]
fn stops_one_fewer_than_stints() {
    // The stop count is always one below the stint count.
    let d = TimeSpan::new(40, 0);
    for (fuel_left, laps) in [(9300u64, 49i32), (1500, 29), (9500, 5), (9000, 120)] {
        let r = StratRequest {
            fuel_left,
            tank_size: 10000,
            min_fuel: 0,
            max_fuel_save: 0,
            yellow_togo: 0,
            ends: EndsWith::Laps(laps),
            green: Rate { fuel: 500, time: d },
            yellow: Rate { fuel: 100, time: d },
        };
        let s = r.compute().unwrap();
        assert_eq!(s.stops.len(), s.stints.len() - 1);
    }
}

#[test]
fn total_laps_ignores_fuel() {
    // The planned lap count depends only on the race end, not the fuel:
    // starting from a full tank plans the same laps.
    let d = TimeSpan::new(40, 0);
    let mut r = StratRequest {
        fuel_left: 9300,
        tank_size: 10000,
        min_fuel: 0,
        max_fuel_save: 0,
        yellow_togo: 0,
        ends: EndsWith::Laps(49),
        green: Rate { fuel: 500, time: d },
        yellow: Rate { fuel: 100, time: d },
    };
    let part = r.compute().unwrap();
    r.fuel_left = r.tank_size;
    let full = r.compute().unwrap();
    assert_eq!(part.total_laps(), 49);
    assert_eq!(full.total_laps(), 49);
}

#[test]
fn later_stints_fit_the_tank() {
    // Every stint after the first starts from a full tank and stays
    // within it.
    let d = TimeSpan::new(40, 0);
    let r = StratRequest {
        fuel_left: 1500,
        tank_size: 10000,
        min_fuel: 200,
        max_fuel_save: 0,
        yellow_togo: 2,
        ends: EndsWith::Laps(75),
        green: Rate { fuel: 700, time: d },
        yellow: Rate { fuel: 150, time: d },
    };
    let s = r.compute().unwrap();
    for st in s.stints.iter().skip(1) {
        assert!(st.fuel <= r.tank_size);
    }
}

#[test]
fn windows_are_ordered() {
    // Pit windows never move backwards and each is well formed, no wider
    // than the spare room in the last stint.
    let d = TimeSpan::new(40, 0);
    let r = StratRequest {
        fuel_left: 9000,
        tank_size: 20000,
        min_fuel: 0,
        max_fuel_save: 100,
        yellow_togo: 0,
        ends: EndsWith::Laps(50),
        green: Rate { fuel: 1000, time: d },
        yellow: Rate { fuel: 100, time: d },
    };
    let s = r.compute().unwrap();
    let full_stint = (r.tank_size / r.green.fuel) as i32;
    let spare = full_stint - s.stints.last().unwrap().laps as i32;
    for w in s.stops.windows(2) {
        assert!(w[0].open <= w[1].open);
        assert!(w[0].close <= w[1].close);
    }
    for stop in &s.stops {
        assert!(stop.open <= stop.close);
        assert!(stop.close - stop.open <= spare);
    }
}

#[test]
fn fuel_save_share_is_bounded() {
    // A planned saving is strictly below the allowed share of the total
    // fuel; with a zero share nothing is ever planned.
    let d = TimeSpan::new(40, 0);
    let mut r = StratRequest {
        fuel_left: 9000,
        tank_size: 20000,
        min_fuel: 0,
        max_fuel_save: 100,
        yellow_togo: 0,
        ends: EndsWith::Laps(50),
        green: Rate { fuel: 1000, time: d },
        yellow: Rate { fuel: 100, time: d },
    };
    let s = r.compute().unwrap();
    assert!(s.fuel_to_save == 0 || (s.fuel_to_save as u128) * 1000 < (s.total_fuel() as u128) * 100);
    r.max_fuel_save = 0;
    let s0 = r.compute().unwrap();
    assert_eq!(0, s0.fuel_to_save);
}

#[test]
fn pitstop_window_state() {
    assert!(Pitstop::new(0, 5).is_open());
    assert!(Pitstop::new(-2, 1).is_open());
    assert!(!Pitstop::new(3, 9).is_open());
}

#[test]
fn lap_state_sets() {
    let y = LapState::yellow();
    let p = LapState::pitted();
    assert!(LapState::empty().is_empty());
    assert!(!y.is_empty());
    let both = y.union(p);
    assert!(both.intersects(LapState::yellow()));
    assert!(both.intersects(LapState::pitted()));
    assert!(!both.intersects(LapState::pace_lap()));
    assert_eq!(both.bits, 0x03);
    assert_eq!(LapState::one_to_green().bits, 0x08);
    assert_eq!(LapState::two_to_green().bits, 0x10);
    assert_eq!(both.text(), "YELLOW|PITTED|");
    assert_eq!(LapState::empty().text(), "");
}
