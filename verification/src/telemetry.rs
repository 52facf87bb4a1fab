//! The telemetry vocabulary: the enumerations and flag words a simulator
//! frame carries, the variable-header record of the telemetry stream, and
//! the pit-service broadcast commands with their wire encoding.
//!
//! The adapter that reads frames out of the simulator lives outside the
//! library; it hands frames over as plain values of these types.

use vstd::prelude::*;
use vstd::string::StringSliceAdditionalSpecFns;
use vstd::string::StrSliceExecFns;

verus! {

/// Longest name or unit a telemetry variable header holds.
pub const VAR_NAME_MAX: usize = 32;

/// Longest description a telemetry variable header holds.
pub const VAR_DESC_MAX: usize = 64;

/// Caution flag bit of the session flag word.
pub const FLAG_YELLOW: u32 = 0x0000_0008;

/// Waving caution flag bit.
pub const FLAG_YELLOW_WAVING: u32 = 0x0000_0100;

/// One-lap-to-green bit.
pub const FLAG_ONE_TO_GREEN: u32 = 0x0000_0200;

/// Caution period bit.
pub const FLAG_CAUTION: u32 = 0x0000_4000;

/// Waving caution period bit.
pub const FLAG_CAUTION_WAVING: u32 = 0x0000_8000;

/// The session flag word of a telemetry frame, as raw bits.
#[derive(Clone, Copy, Debug, PartialEq, Eq, Structural)]
pub struct Flags {
    pub bits: u32,
}

impl Flags {
    pub fn new(bits: u32) -> (r: Flags)
        ensures
            r.bits == bits,
    {
        Flags { bits }
    }

    /// Whether any bit of the mask is set.
    pub fn intersects(&self, mask: u32) -> (r: bool)
        ensures
            r == (self.bits & mask != 0),
    {
        self.bits & mask != 0
    }
}

/// Where the player's car is relative to the track and pit lane.
#[derive(Clone, Copy, Debug, PartialEq, Eq, Structural)]
pub enum TrackLocation {
    NotInWorld,
    OffTrack,
    InPitStall,
    ApproachingPits,
    OnTrack,
}

/// The location a raw telemetry value denotes: `-1` is not-in-world, then
/// the locations follow in wire order.
pub open spec fn spec_track_location(v: int) -> Option<TrackLocation> {
    if v == -1 {
        Some(TrackLocation::NotInWorld)
    } else if v == 0 {
        Some(TrackLocation::OffTrack)
    } else if v == 1 {
        Some(TrackLocation::InPitStall)
    } else if v == 2 {
        Some(TrackLocation::ApproachingPits)
    } else if v == 3 {
        Some(TrackLocation::OnTrack)
    } else {
        None
    }
}

impl TrackLocation {
    /// Decodes the wire value of a track location.
    pub fn from_i32(v: i32) -> (r: Option<TrackLocation>)
        ensures
            r == spec_track_location(v as int),
    {
        if v == -1 {
            Some(TrackLocation::NotInWorld)
        } else if v == 0 {
            Some(TrackLocation::OffTrack)
        } else if v == 1 {
            Some(TrackLocation::InPitStall)
        } else if v == 2 {
            Some(TrackLocation::ApproachingPits)
        } else if v == 3 {
            Some(TrackLocation::OnTrack)
        } else {
            None
        }
    }
}

/// The surface under the player's car.
#[derive(Clone, Copy, Debug, PartialEq, Eq, Structural)]
pub enum TrackSurface {
    SurfaceNotInWorld,
    UndefinedMaterial,
    Asphalt1Material,
    Asphalt2Material,
    Asphalt3Material,
    Asphalt4Material,
    Concrete1Material,
    Concrete2Material,
    RacingDirt1Material,
    RacingDirt2Material,
    Paint1Material,
    Paint2Material,
    Rumble1Material,
    Rumble2Material,
    Rumble3Material,
    Rumble4Material,
    Grass1Material,
    Grass2Material,
    Grass3Material,
    Grass4Material,
    Dirt1Material,
    Dirt2Material,
    Dirt3Material,
    Dirt4Material,
    SandMaterial,
    Gravel1Material,
    Gravel2Material,
    GrasscreteMaterial,
    AstroturfMaterial,
}

/// The phase the session is in.
#[derive(Clone, Copy, Debug, PartialEq, Eq, Structural)]
pub enum SessionState {
    Invalid,
    GetInCar,
    Warmup,
    ParadeLaps,
    Racing,
    Checkered,
    CoolDown,
}

/// The state a raw telemetry value denotes, in wire order from zero.
pub open spec fn spec_session_state(v: int) -> Option<SessionState> {
    if v == 0 {
        Some(SessionState::Invalid)
    } else if v == 1 {
        Some(SessionState::GetInCar)
    } else if v == 2 {
        Some(SessionState::Warmup)
    } else if v == 3 {
        Some(SessionState::ParadeLaps)
    } else if v == 4 {
        Some(SessionState::Racing)
    } else if v == 5 {
        Some(SessionState::Checkered)
    } else if v == 6 {
        Some(SessionState::CoolDown)
    } else {
        None
    }
}

impl SessionState {
    /// Decodes the wire value of a session state.
    pub fn from_i32(v: i32) -> (r: Option<SessionState>)
        ensures
            r == spec_session_state(v as int),
    {
        if v == 0 {
            Some(SessionState::Invalid)
        } else if v == 1 {
            Some(SessionState::GetInCar)
        } else if v == 2 {
            Some(SessionState::Warmup)
        } else if v == 3 {
            Some(SessionState::ParadeLaps)
        } else if v == 4 {
            Some(SessionState::Racing)
        } else if v == 5 {
            Some(SessionState::Checkered)
        } else if v == 6 {
            Some(SessionState::CoolDown)
        } else {
            None
        }
    }
}

/// Traffic alongside the player's car.
#[derive(Clone, Copy, Debug, PartialEq, Eq, Structural)]
pub enum CarLeftRight {
    Off,
    Clear,
    CarLeft,
    CarRight,
    CarLeftRight,
    TwoCarsLeft,
    TwoCarsRight,
}

/// Progress of a requested pit service.
#[derive(Clone, Copy, Debug, PartialEq, Eq, Structural)]
pub enum PitSvcStatus {
    NoService,
    InProgress,
    Complete,
    TooFarLeft,
    TooFarRight,
    TooFarForward,
    TooFarBack,
    BadAngle,
    CantFixThat,
}

/// How the field is pacing.
#[derive(Clone, Copy, Debug, PartialEq, Eq, Structural)]
pub enum PaceMode {
    SingleFileStart,
    DoubleFileStart,
    SingleFileRestart,
    DoubleFileRestart,
    NotPacing,
}

/// The machine type of a telemetry variable.
#[derive(Clone, Copy, Debug, PartialEq, Eq, Structural)]
pub enum VarType {
    Char,
    Bool,
    Int,
    Bitfield,
    Float,
    Double,
}

/// The raw variable header of the telemetry stream: fixed-size buffers
/// hold the name, description and unit as bytes padded with zeros.
#[derive(Clone, Copy, Debug)]
pub struct VarHeader {
    pub var_type: VarType,
    pub offset: i32,
    pub count: i32,
    pub count_as_time: u8,
    pub name: [u8; 32],
    pub desc: [u8; 64],
    pub unit: [u8; 32],
}

impl VarHeader {
    /// Whether the header's padded name buffer holds exactly this name:
    /// the name's bytes followed by zeros to the end of the buffer.
    pub fn has_name(&self, n: &str) -> (r: bool)
        ensures
            r == (n.spec_bytes().len() <= VAR_NAME_MAX && (forall|i: int|
                0 <= i < n.spec_bytes().len() ==> self.name@[i] == n.spec_bytes()[i]) && (forall|
                i: int,
            |
                n.spec_bytes().len() <= i < VAR_NAME_MAX ==> self.name@[i] == 0)),
    {
        let b = n.as_bytes();
        let blen = b.len();
        if blen > VAR_NAME_MAX {
            return false;
        }
        let mut i: usize = 0;
        while i < blen
            invariant
                i <= blen,
                blen == n.spec_bytes().len() <= VAR_NAME_MAX,
                b@ == n.spec_bytes(),
                forall|k: int| 0 <= k < i ==> self.name@[k] == n.spec_bytes()[k],
            decreases blen - i,
        {
            if b[i] != self.name[i] {
                return false;
            }
            i = i + 1;
        }
        while i < VAR_NAME_MAX
            invariant
                blen <= i <= VAR_NAME_MAX,
                blen == n.spec_bytes().len(),
                b@ == n.spec_bytes(),
                forall|k: int| 0 <= k < blen ==> self.name@[k] == n.spec_bytes()[k],
                forall|k: int| blen <= k < i ==> self.name@[k] == 0,
            decreases VAR_NAME_MAX - i,
        {
            if self.name[i] != 0 {
                return false;
            }
            i = i + 1;
        }
        true
    }
}

/// A telemetry variable as the library sees it: its type, the decoded
/// header strings, and how many values it carries per frame.
#[derive(Clone, Debug)]
pub struct Var {
    pub var_type: VarType,
    pub name: String,
    pub desc: String,
    pub unit: String,
    pub count: usize,
}

impl Var {
    /// Builds the record from decoded header fields.
    pub fn new(var_type: VarType, name: String, desc: String, unit: String, count: usize) -> (r:
        Var)
        ensures
            r.var_type == var_type,
            r.name@ == name@,
            r.desc@ == desc@,
            r.unit@ == unit@,
            r.count == count,
    {
        Var { var_type, name, desc, unit, count }
    }

    /// The variable's machine type.
    pub fn var_type(&self) -> (r: VarType)
        ensures
            r == self.var_type,
    {
        self.var_type
    }

    /// The variable's name.
    pub fn name(&self) -> (r: &str)
        ensures
            r@ == self.name@,
    {
        self.name.as_str()
    }

    /// The variable's description.
    pub fn desc(&self) -> (r: &str)
        ensures
            r@ == self.desc@,
    {
        self.desc.as_str()
    }

    /// The variable's unit.
    pub fn unit(&self) -> (r: &str)
        ensures
            r@ == self.unit@,
    {
        self.unit.as_str()
    }

    /// How many values the variable carries per frame.
    pub fn count(&self) -> (r: usize)
        ensures
            r == self.count,
    {
        self.count
    }
}

/// A pit-service command, with its optional argument: litres for fuel,
/// tire pressure for tire changes, zero meaning the existing setting.
#[derive(Clone, Copy, Debug, PartialEq, Eq, Structural)]
pub enum PitCommandMode {
    Clear,
    TearOff,
    Fuel(i16),
    LF(i16),
    RF(i16),
    LR(i16),
    RR(i16),
    ClearTires,
    FastRepair,
    ClearWS,
    ClearFR,
    ClearFuel,
}

/// The wire encoding of a pit command: its command number and argument.
pub open spec fn spec_pit_msg(c: PitCommandMode) -> (i16, int) {
    match c {
        PitCommandMode::Clear => (0i16, 0int),
        PitCommandMode::TearOff => (1i16, 0int),
        PitCommandMode::Fuel(l) => (2i16, l as int),
        PitCommandMode::LF(p) => (3i16, p as int),
        PitCommandMode::RF(p) => (4i16, p as int),
        PitCommandMode::LR(p) => (5i16, p as int),
        PitCommandMode::RR(p) => (6i16, p as int),
        PitCommandMode::ClearTires => (7i16, 0int),
        PitCommandMode::FastRepair => (8i16, 0int),
        PitCommandMode::ClearWS => (9i16, 0int),
        PitCommandMode::ClearFR => (10i16, 0int),
        PitCommandMode::ClearFuel => (11i16, 0int),
    }
}

impl PitCommandMode {
    /// Encodes the command for the simulator's message interface.
    pub fn msg(&self) -> (r: (i16, isize))
        ensures
            r.0 == spec_pit_msg(*self).0,
            r.1 as int == spec_pit_msg(*self).1,
    {
        match self {
            PitCommandMode::Clear => (0, 0),
            PitCommandMode::TearOff => (1, 0),
            PitCommandMode::Fuel(l) => (2, *l as isize),
            PitCommandMode::LF(p) => (3, *p as isize),
            PitCommandMode::RF(p) => (4, *p as isize),
            PitCommandMode::LR(p) => (5, *p as isize),
            PitCommandMode::RR(p) => (6, *p as isize),
            PitCommandMode::ClearTires => (7, 0),
            PitCommandMode::FastRepair => (8, 0),
            PitCommandMode::ClearWS => (9, 0),
            PitCommandMode::ClearFR => (10, 0),
            PitCommandMode::ClearFuel => (11, 0),
        }
    }
}

/// A message to the simulator. Only pit commands are sent by this
/// library; the other messages exist in the simulator's interface and
/// carry no encoding here.
#[derive(Clone, Copy, Debug, PartialEq, Eq, Structural)]
pub enum BroadcastMsg {
    CamSwitchPos,
    CamSwitchNum,
    CamSetState,
    ReplaySetPlaySpeed,
    ReplaySetPlayPosition,
    ReplaySearch,
    ReplaySetState,
    ReloadTextures,
    ChatComand,
    PitCommand(PitCommandMode),
    TelemCommand,
    FFBCommand,
    ReplaySearchSessionTime,
    VideoCapture,
    Last,
}

impl BroadcastMsg {
    /// Encodes the message number and arguments; defined for the pit
    /// commands this library sends.
    pub fn msg(&self) -> (r: (i16, (i16, isize)))
        requires
            self is PitCommand,
        ensures
            r.0 == 9,
            r.1.0 == spec_pit_msg(self->PitCommand_0).0,
            r.1.1 as int == spec_pit_msg(self->PitCommand_0).1,
    {
        match self {
            BroadcastMsg::PitCommand(c) => (9, c.msg()),
            _ => (0, (0, 0)),
        }
    }
}

} // verus!
