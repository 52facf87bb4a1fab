//! Telemetry vocabulary tests: decoders, the variable header, and the
//! pit-command wire encoding.

use naf_calc::telemetry::BroadcastMsg;
use naf_calc::telemetry::PitCommandMode;
use naf_calc::telemetry::SessionState;
use naf_calc::telemetry::TrackLocation;
use naf_calc::telemetry::Var;
use naf_calc::telemetry::VarHeader;
use naf_calc::telemetry::VarType;

#[test]
fn pit_command_encoding() {
    assert_eq!((0, 0), PitCommandMode::Clear.msg());
    assert_eq!((1, 0), PitCommandMode::TearOff.msg());
    assert_eq!((2, 7), PitCommandMode::Fuel(7).msg());
    assert_eq!((3, 170), PitCommandMode::LF(170).msg());
    assert_eq!((4, 0), PitCommandMode::RF(0).msg());
    assert_eq!((5, 0), PitCommandMode::LR(0).msg());
    assert_eq!((6, 0), PitCommandMode::RR(0).msg());
    assert_eq!((7, 0), PitCommandMode::ClearTires.msg());
    assert_eq!((8, 0), PitCommandMode::FastRepair.msg());
    assert_eq!((9, 0), PitCommandMode::ClearWS.msg());
    assert_eq!((10, 0), PitCommandMode::ClearFR.msg());
    assert_eq!((11, 0), PitCommandMode::ClearFuel.msg());
}

#[test]
fn broadcast_encoding() {
    let m = BroadcastMsg::PitCommand(PitCommandMode::Fuel(12));
    assert_eq!((9, (2, 12)), m.msg());
}

#[test]
fn wire_decoders() {
    assert_eq!(Some(TrackLocation::NotInWorld), TrackLocation::from_i32(-1));
    assert_eq!(Some(TrackLocation::OffTrack), TrackLocation::from_i32(0));
    assert_eq!(Some(TrackLocation::InPitStall), TrackLocation::from_i32(1));
    assert_eq!(
        Some(TrackLocation::ApproachingPits),
        TrackLocation::from_i32(2)
    );
    assert_eq!(Some(TrackLocation::OnTrack), TrackLocation::from_i32(3));
    assert_eq!(None, TrackLocation::from_i32(4));
    assert_eq!(Some(SessionState::Invalid), SessionState::from_i32(0));
    assert_eq!(Some(SessionState::Racing), SessionState::from_i32(4));
    assert_eq!(Some(SessionState::CoolDown), SessionState::from_i32(6));
    assert_eq!(None, SessionState::from_i32(7));
}

fn header_named(name: &str) -> VarHeader {
    let mut buf = [0u8; 32];
    for (i, b) in name.as_bytes().iter().enumerate() {
        buf[i] = *b;
    }
    VarHeader {
        var_type: VarType::Double,
        offset: 0,
        count: 1,
        count_as_time: 0,
        name: buf,
        desc: [0u8; 64],
        unit: [0u8; 32],
    }
}

#[test]
fn header_name_match() {
    let h = header_named("SessionTime");
    assert!(h.has_name("SessionTime"));
    assert!(!h.has_name("SessionTim"));
    assert!(!h.has_name("SessionTimes"));
    assert!(!h.has_name("sessionTime"));
    assert!(!h.has_name(""));
    assert!(!h.has_name("a name that is far longer than the buffer can hold"));
}

#[test]
fn var_getters() {
    let v = Var::new(
        VarType::Float,
        "FuelLevel".to_string(),
        "Fuel level".to_string(),
        "l".to_string(),
        1,
    );
    assert_eq!(VarType::Float, v.var_type());
    assert_eq!("FuelLevel", v.name());
    assert_eq!("Fuel level", v.desc());
    assert_eq!("l", v.unit());
    assert_eq!(1, v.count());
}
