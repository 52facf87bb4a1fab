//! Lap history: the ordered laps of the running session, the per-lap rate
//! estimates derived from them, and a persistent store of past laps used
//! for cold-start defaults.
//!
//! The store is a local SQLite file. Every call into it is fallible and a
//! failure never blocks live strategy computation: the session then simply
//! runs without persistence or historical defaults.

use crate::strat::EndsWith;
use crate::strat::Lap;
use crate::strat::LapState;
use crate::strat::Rate;
use crate::strat::StratRequest;
use crate::strat::Strategy;
use crate::strat::MAX_FUEL_MILLI;
use crate::timespan::TimeSpan;
use vstd::prelude::*;

verus! {

broadcast use crate::timespan::lemma_timespan_view_nonneg;

/// Largest average lap time, in nanoseconds, a recorded lap may carry;
/// four times it still fits the planner's per-lap bound.
pub const MAX_LAP_AVG_NANOS: u64 = 0x0400_0000_0000_0000;

/// Most laps one session can record; race-long sums then stay in range.
pub const MAX_SESSION_LAPS: usize = 0x10_0000;

/// A recorded lap the estimator accepts: it used some fuel and took some
/// time, and both are small enough for race-long sums to stay in range.
pub open spec fn lap_wf(l: Lap) -> bool {
    &&& 1 <= l.fuel_used <= MAX_FUEL_MILLI
    &&& l.fuel_left <= MAX_FUEL_MILLI
    &&& 1 <= l.time@ <= MAX_LAP_AVG_NANOS
}

/// A usable lap rate: positive fuel and time, within the same bounds.
pub open spec fn rate_ok(r: Rate) -> bool {
    &&& 1 <= r.fuel <= MAX_FUEL_MILLI
    &&& 1 <= r.time@ <= MAX_LAP_AVG_NANOS
}

/// The identity and limits of one race session; immutable for its life.
/// Fuel is in milli-litres, the fuel-save share in per-mille.
#[derive(Clone, Debug)]
pub struct RaceSession {
    pub fuel_tank_size: u64,
    pub max_fuel_save: u32,
    pub min_fuel: u64,
    pub track_id: i64,
    pub track_name: String,
    pub layout_name: String,
    pub car_id: i64,
    pub car: String,
}

/// The session limits the planner accepts.
pub open spec fn session_wf(cfg: RaceSession) -> bool {
    cfg.fuel_tank_size <= MAX_FUEL_MILLI && cfg.min_fuel <= MAX_FUEL_MILLI
}

/// Why the lap store could not serve a request.
#[derive(Clone, Copy, Debug, PartialEq, Eq, Structural)]
pub enum HistoryError {
    Storage,
}

#[verifier::external_type_specification]
#[verifier::external_body]
pub struct ExConnection(rusqlite::Connection);

#[verifier::external_type_specification]
#[verifier::external_body]
pub struct ExSqlError(rusqlite::Error);

/// Relies on `rusqlite::Connection::open`: it opens (creating if absent)
/// the SQLite database file at the path, `:memory:` meaning an in-memory
/// database.
#[verifier::external_body]
fn open_db(path: &str) -> Result<rusqlite::Connection, rusqlite::Error> {
    rusqlite::Connection::open(path)
}

/// Relies on `rusqlite::Connection::execute`: it runs one parameterless
/// SQL statement and reports how many rows changed.
#[verifier::external_body]
fn exec_sql(con: &rusqlite::Connection, sql: &str) -> Result<usize, rusqlite::Error> {
    con.execute(sql, ())
}

/// Relies on `rusqlite::Connection::execute` to run the insert with the
/// given parameters and on `rusqlite::Connection::last_insert_rowid` for
/// the id of the inserted row.
#[verifier::external_body]
fn insert_session_row(
    con: &rusqlite::Connection,
    sql: &str,
    car_id: i64,
    car: &str,
    track_id: i64,
    track_name: &str,
    layout: &str,
    tank_size: i64,
    max_fuel_save: i64,
    min_fuel: i64,
) -> Result<i64, rusqlite::Error> {
    con.execute(sql, (car_id, car, track_id, track_name, layout, tank_size, max_fuel_save,
        min_fuel))?;
    Ok(con.last_insert_rowid())
}

/// Relies on `rusqlite::Connection::execute`: it runs the insert with the
/// given lap values as parameters.
#[verifier::external_body]
fn insert_lap_row(
    con: &rusqlite::Connection,
    sql: &str,
    session: i64,
    fuel_used: i64,
    fuel_left: i64,
    lap_time_ms: i64,
    condition: i64,
    condition_str: &str,
) -> Result<usize, rusqlite::Error> {
    con.execute(sql, (session, fuel_used, fuel_left, lap_time_ms, condition, condition_str))
}

/// Relies on `rusqlite::Connection::query_row` and `rusqlite::Row::get`:
/// they run the query with the given parameters and hand back the first
/// row's two integer columns.
#[verifier::external_body]
fn query_two_ints(
    con: &rusqlite::Connection,
    sql: &str,
    car_id: i64,
    track_id: i64,
    condition: i64,
) -> Result<(i64, i64), rusqlite::Error> {
    con.query_row(sql, (car_id, track_id, condition), |row| Ok((row.get(0)?, row.get(1)?)))
}

/// Relies on `rusqlite::Connection::query_row` and `rusqlite::Row::get`:
/// they run the query with one parameter and hand back the first row's
/// single integer column.
#[verifier::external_body]
fn query_one_int(
    con: &rusqlite::Connection,
    sql: &str,
    param: i64,
) -> Result<i64, rusqlite::Error> {
    con.query_row(sql, (param,), |row| row.get(0))
}

/// The laps of `laps` that a save from high-water mark `saved` writes:
/// everything the mark has not covered yet.
pub open spec fn pending_rows(laps: Seq<Lap>, saved: int) -> Seq<Lap> {
    laps.subrange(saved, laps.len() as int)
}

/// Appending the same lap list twice writes each lap exactly once: a save
/// writes the rows past the mark and moves the mark to the end, so a
/// second save of the unchanged list selects nothing, and the rows before
/// the mark together with one save's rows are exactly the list.
pub proof fn lemma_append_laps_idempotent(laps: Seq<Lap>, saved: int)
    requires
        0 <= saved <= laps.len(),
    ensures
        laps.subrange(0, saved) + pending_rows(laps, saved) == laps,
        pending_rows(laps, laps.len() as int) == Seq::<Lap>::empty(),
{
    assert(laps.subrange(0, saved) + pending_rows(laps, saved) =~= laps);
    assert(pending_rows(laps, laps.len() as int) =~= Seq::<Lap>::empty());
}

/// The open lap store: a connection, the session row's id, the high-water
/// mark of laps already written, and the ghost log of committed lap rows.
struct Db {
    con: rusqlite::Connection,
    laps_written: usize,
    id: Option<i64>,
    written: Ghost<Seq<Lap>>,
}

impl Db {
    /// Opens the store and puts the schema in place. The schema grows by
    /// additive migrations: columns added to an existing file keep their
    /// default values.
    fn new(path: &str) -> (r: Result<Db, HistoryError>)
        ensures
            r is Ok ==> (r->Ok_0).laps_written == 0 && (r->Ok_0).written@ == Seq::<Lap>::empty(),
    {
        let con = match open_db(path) {
            Ok(c) => c,
            Err(_) => {
                return Err(HistoryError::Storage);
            },
        };
        let r = exec_sql(
            &con,
            "CREATE TABLE IF NOT EXISTS Session(\
                id              integer  primary key,\
                time            text,\
                car_id          int,\
                track_id        int,\
                track_name      text,\
                track_layout    text,\
                tank_size       int,\
                max_fuel_save   int)",
        );
        if r.is_err() {
            return Err(HistoryError::Storage);
        }
        let _ = exec_sql(&con, "ALTER TABLE Session ADD COLUMN car text DEFAULT ''");
        let _ = exec_sql(&con, "ALTER TABLE Session ADD COLUMN min_fuel int DEFAULT 200");
        let r = exec_sql(
            &con,
            "CREATE TABLE IF NOT EXISTS Lap(\
                id              integer primary key,\
                session         integer references session(id),\
                time            text,\
                fuel_used       int,\
                fuel_left       int,\
                lap_time        int,\
                condition       int,\
                condition_str   text)",
        );
        if r.is_err() {
            return Err(HistoryError::Storage);
        }
        Ok(Db { con, laps_written: 0, id: None, written: Ghost(Seq::empty()) })
    }

    /// Records the session row and keeps its id for the lap rows.
    fn insert_session(&mut self, cfg: &RaceSession) -> (r: Result<(), HistoryError>)
        ensures
            final(self).laps_written == old(self).laps_written,
            final(self).written == old(self).written,
            r is Ok ==> final(self).id is Some,
    {
        let id = insert_session_row(
            &self.con,
            "INSERT INTO Session(time,car_id,car,track_id,track_name,track_layout,\
                tank_size,max_fuel_save,min_fuel) \
                VALUES(datetime('now'),?,?,?,?,?,?,?,?)",
            cfg.car_id,
            cfg.car.as_str(),
            cfg.track_id,
            cfg.track_name.as_str(),
            cfg.layout_name.as_str(),
            cfg.fuel_tank_size as i64,
            cfg.max_fuel_save as i64,
            cfg.min_fuel as i64,
        );
        match id {
            Ok(i) => {
                self.id = Some(i);
                Ok(())
            },
            Err(_) => Err(HistoryError::Storage),
        }
    }

    /// Writes the laps past the high-water mark inside one transaction
    /// and moves the mark. On any failure the transaction is rolled back:
    /// SQLite commits all of it or none, so the log of committed rows
    /// either grows by exactly the pending rows or stays as it was.
    fn save_laps(&mut self, laps: &Vec<Lap>) -> (r: Result<(), HistoryError>)
        requires
            old(self).laps_written <= laps@.len(),
            forall|j: int| 0 <= j < laps@.len() ==> lap_wf(#[trigger] laps@[j]),
        ensures
            r is Ok ==> final(self).laps_written == laps@.len(),
            r is Ok ==> final(self).written@ == old(self).written@ + pending_rows(
                laps@,
                old(self).laps_written as int,
            ),
            r is Err ==> final(self).laps_written == old(self).laps_written,
            r is Err ==> final(self).written@ == old(self).written@,
            final(self).id == old(self).id,
    {
        let sid = match self.id {
            Some(i) => i,
            None => {
                return Err(HistoryError::Storage);
            },
        };
        if exec_sql(&self.con, "BEGIN").is_err() {
            return Err(HistoryError::Storage);
        }
        let mut j: usize = self.laps_written;
        let n = laps.len();
        while j < n
            invariant
                self.laps_written == old(self).laps_written,
                self.id == old(self).id,
                self.written == old(self).written,
                old(self).laps_written <= j <= n,
                n == laps@.len(),
                forall|k: int| 0 <= k < laps@.len() ==> lap_wf(#[trigger] laps@[k]),
            decreases n - j,
        {
            let l = &laps[j];
            let ms128 = l.time.as_millis();
            proof {
                assert(lap_wf(laps@[j as int]));
                assert(l.time@ / 1_000_000 <= l.time@);
            }
            let ms = ms128 as i64;
            let text = l.condition.text();
            let r = insert_lap_row(
                &self.con,
                "INSERT INTO Lap(session,time,fuel_used,fuel_left,lap_time,\
                    condition,condition_str) \
                    VALUES (?,datetime('now'),?,?,?,?,?)",
                sid,
                l.fuel_used as i64,
                l.fuel_left as i64,
                ms,
                l.condition.bits as i64,
                text.as_str(),
            );
            if r.is_err() {
                let _ = exec_sql(&self.con, "ROLLBACK");
                return Err(HistoryError::Storage);
            }
            j = j + 1;
        }
        if exec_sql(&self.con, "COMMIT").is_err() {
            let _ = exec_sql(&self.con, "ROLLBACK");
            return Err(HistoryError::Storage);
        }
        proof {
            self.written@ = self.written@ + pending_rows(laps@, self.laps_written as int);
        }
        self.laps_written = n;
        Ok(())
    }

    /// Reads the historical average rate for the car and track under the
    /// given condition bits: fuel in milli-litres and lap time in whole
    /// milliseconds, averaged over the most recent five matching laps of
    /// past sessions. Nothing is promised of the values: they come from
    /// whatever the file on disk holds, and the caller validates them.
    fn avg_rate(&self, car_id: i64, track_id: i64, condition: i64) -> Option<(i64, i64)> {
        let r = query_two_ints(
            &self.con,
            "SELECT CAST(avg(fuel_used) AS integer) AS f, \
                CAST(avg(lap_time) AS integer) AS t FROM (\
                SELECT l.fuel_used, l.lap_time FROM lap l \
                INNER JOIN session s ON l.session = s.id \
                WHERE s.car_id = ? AND s.track_id = ? AND l.condition = ? \
                ORDER BY l.id DESC LIMIT 5)",
            car_id,
            track_id,
            condition,
        );
        match r {
            Ok(v) => Some(v),
            Err(_) => None,
        }
    }
}

// ---------------------------------------------------------------------------
// Rate estimation over the recorded laps.
// ---------------------------------------------------------------------------

/// Count, fuel and time of the last laps with an empty condition, newest
/// first, up to `slots` of them.
pub open spec fn green_stats(laps: Seq<Lap>, slots: int) -> (int, int, int)
    decreases laps.len(),
{
    if laps.len() == 0 || slots <= 0 {
        (0, 0, 0)
    } else {
        let l = laps.last();
        if l.condition.bits == 0 {
            let p = green_stats(laps.drop_last(), slots - 1);
            (p.0 + 1, p.1 + l.fuel_used, p.2 + l.time@)
        } else {
            green_stats(laps.drop_last(), slots)
        }
    }
}

/// Flag, count, fuel and time of the caution laps among the first `n`
/// laps that follow another caution lap: the first lap of each caution
/// run is partial and not counted. The flag says whether lap `n - 1` ran
/// under caution.
pub open spec fn yellow_stats(laps: Seq<Lap>, n: int) -> (bool, int, int, int)
    decreases n,
{
    if n <= 0 {
        (false, 0, 0, 0)
    } else {
        let p = yellow_stats(laps, n - 1);
        let l = laps[n - 1];
        if l.condition.bits & 0x01 != 0 {
            if !p.0 {
                (true, p.1, p.2, p.3)
            } else {
                (true, p.1 + 1, p.2 + l.fuel_used, p.3 + l.time@)
            }
        } else {
            (false, p.1, p.2, p.3)
        }
    }
}

/// How many of the most recent laps ran under caution.
pub open spec fn spec_trailing_yellows(laps: Seq<Lap>) -> int
    decreases laps.len(),
{
    if laps.len() == 0 || laps.last().condition.bits & 0x01 == 0 {
        0
    } else {
        1 + spec_trailing_yellows(laps.drop_last())
    }
}

/// The yellow laps the planner should still expect: a caution usually
/// lasts at least three laps, so the running one is padded to three.
pub open spec fn spec_yellow_togo(laps: Seq<Lap>) -> int {
    let ty = spec_trailing_yellows(laps);
    if ty > 0 {
        if ty < 3 {
            3 - ty
        } else {
            0
        }
    } else {
        0
    }
}

/// The green-lap statistics are non-negative in every component.
proof fn lemma_green_stats_nonneg(laps: Seq<Lap>, slots: int)
    ensures
        green_stats(laps, slots).0 >= 0,
        green_stats(laps, slots).1 >= 0,
        green_stats(laps, slots).2 >= 0,
    decreases laps.len(),
{
    if laps.len() > 0 && slots > 0 {
        lemma_green_stats_nonneg(laps.drop_last(), slots - 1);
        lemma_green_stats_nonneg(laps.drop_last(), slots);
    }
}

/// What the green-rate estimate returns: the average of the recent green
/// laps, the stored default when fewer than two are available, nothing
/// when there is neither. With exactly one green lap the live average
/// wins over the default only when no default exists; with one or more
/// laps and no default the live average always wins.
pub open spec fn green_choice(laps: Seq<Lap>, def: Option<Rate>, r: Option<Rate>) -> bool {
    let c = green_stats(laps, 5).0;
    let f = green_stats(laps, 5).1;
    let t = green_stats(laps, 5).2;
    if def is Some && c < 2 {
        r == def
    } else if c >= 1 {
        r is Some && (r->Some_0).fuel == f / c && (r->Some_0).time@ == t / c
    } else {
        r is None
    }
}

/// What the yellow-rate estimate returns: the average of the counted
/// caution laps, or the stored default when none was counted.
pub open spec fn yellow_choice(laps: Seq<Lap>, def: Option<Rate>, r: Option<Rate>) -> bool {
    let y = yellow_stats(laps, laps.len() as int);
    if y.1 == 0 {
        r == def
    } else {
        r is Some && (r->Some_0).fuel == y.2 / y.1 && (r->Some_0).time@ == y.3 / y.1
    }
}

/// No green rate can be estimated: no green lap was recorded and no
/// default is stored.
pub open spec fn green_missing(laps: Seq<Lap>, def: Option<Rate>) -> bool {
    green_stats(laps, 5).0 == 0 && def is None
}

/// For a purely timed race the planner demands that the time limit fits
/// within its lap cap at the green lap rate.
pub open spec fn time_bound_ok(req: StratRequest) -> bool {
    match req.ends {
        EndsWith::Time(d) => d@ < req.green.time@ * 0x3fff_ffff,
        EndsWith::Laps(l) => true,
        EndsWith::LapsOrTime(l, d) => true,
    }
}

/// The planning request the history assembles from its laps and session:
/// the caller's fuel state and race end, the estimated green rate, the
/// estimated yellow rate (defaulting to a third of the green fuel over
/// four times the green lap time), and the padded yellow laps to go.
pub open spec fn strat_request_built(
    cfg: RaceSession,
    laps: Seq<Lap>,
    def_green: Option<Rate>,
    def_yellow: Option<Rate>,
    fuel_left: u64,
    ends: EndsWith,
    req: StratRequest,
) -> bool {
    &&& req.fuel_left == fuel_left
    &&& req.tank_size == cfg.fuel_tank_size
    &&& req.max_fuel_save == cfg.max_fuel_save
    &&& req.min_fuel == cfg.min_fuel
    &&& req.ends == ends
    &&& req.yellow_togo == spec_yellow_togo(laps)
    &&& green_choice(laps, def_green, Some(req.green))
    &&& (if yellow_stats(laps, laps.len() as int).1 == 0 && def_yellow is None {
        req.yellow.fuel == req.green.fuel / 3 && req.yellow.time@ == req.green.time@ * 4
    } else {
        yellow_choice(laps, def_yellow, Some(req.yellow))
    })
}

/// The live lap record of one session with its cold-start defaults and
/// its persistent store.
pub struct History {
    cfg: RaceSession,
    laps: Vec<Lap>,
    db: Option<Db>,
    def_green: Option<Rate>,
    def_yellow: Option<Rate>,
}

impl History {
    /// The session this history belongs to.
    pub closed spec fn spec_cfg(&self) -> RaceSession {
        self.cfg
    }

    /// The laps recorded so far, oldest first.
    pub closed spec fn spec_laps(&self) -> Seq<Lap> {
        self.laps@
    }

    /// The stored default green rate, if one was loaded.
    pub closed spec fn spec_def_green(&self) -> Option<Rate> {
        self.def_green
    }

    /// The stored default yellow rate, if one was loaded.
    pub closed spec fn spec_def_yellow(&self) -> Option<Rate> {
        self.def_yellow
    }

    /// Whether a store is attached.
    pub closed spec fn has_db(&self) -> bool {
        self.db is Some
    }

    /// How many of the recorded laps the store has committed.
    pub closed spec fn spec_saved(&self) -> int {
        match self.db {
            Some(d) => d.laps_written as int,
            None => 0,
        }
    }

    /// The lap rows the store has committed, in order.
    pub closed spec fn spec_written(&self) -> Seq<Lap> {
        match self.db {
            Some(d) => d.written@,
            None => Seq::empty(),
        }
    }

    /// The history's invariant: a well-formed session, well-formed laps
    /// within the session cap, validated defaults, and a high-water mark
    /// within the lap list.
    pub closed spec fn wf(&self) -> bool {
        &&& session_wf(self.cfg)
        &&& forall|j: int| 0 <= j < self.laps@.len() ==> lap_wf(#[trigger] self.laps@[j])
        &&& self.laps@.len() <= MAX_SESSION_LAPS
        &&& (self.def_green is Some ==> rate_ok(self.def_green->Some_0))
        &&& (self.def_yellow is Some ==> rate_ok(self.def_yellow->Some_0))
        &&& (match self.db {
            Some(d) => d.laps_written <= self.laps@.len(),
            None => true,
        })
    }

    /// Opens the history for a session: attaches the store when a path is
    /// given and it can be opened, loads the default rates from it, and
    /// records the session row. Any storage failure leaves a history
    /// without a store; it never blocks the session.
    pub fn new(cfg: RaceSession, db_file: Option<&str>) -> (r: Result<History, HistoryError>)
        requires
            session_wf(cfg),
        ensures
            r is Ok,
            (r->Ok_0).wf(),
            (r->Ok_0).spec_cfg() == cfg,
            (r->Ok_0).spec_laps() == Seq::<Lap>::empty(),
            (r->Ok_0).spec_saved() == 0,
            (r->Ok_0).spec_written() == Seq::<Lap>::empty(),
            db_file is None ==> !(r->Ok_0).has_db(),
            db_file is None ==> (r->Ok_0).spec_def_green() is None && (
            r->Ok_0).spec_def_yellow() is None,
            (r->Ok_0).spec_def_green() is Some ==> rate_ok((r->Ok_0).spec_def_green()->Some_0),
            (r->Ok_0).spec_def_yellow() is Some ==> rate_ok((r->Ok_0).spec_def_yellow()->Some_0),
    {
        let mut db = match db_file {
            None => None,
            Some(p) => match Db::new(p) {
                Ok(d) => Some(d),
                Err(_) => None,
            },
        };
        let mut def_green: Option<Rate> = None;
        let mut def_yellow: Option<Rate> = None;
        match &db {
            Some(d) => {
                def_green = validated_rate(d.avg_rate(cfg.car_id, cfg.track_id, 0));
                def_yellow = validated_rate(d.avg_rate(cfg.car_id, cfg.track_id, 0x01));
            },
            None => {
            },
        }
        let ok = match &mut db {
            Some(d) => d.insert_session(&cfg).is_ok(),
            None => true,
        };
        if !ok {
            db = None;
        }
        Ok(History { cfg, laps: Vec::new(), db, def_green, def_yellow })
    }

    /// A copy of the session record.
    pub fn config(&self) -> (r: RaceSession)
        ensures
            r.fuel_tank_size == self.spec_cfg().fuel_tank_size,
            r.max_fuel_save == self.spec_cfg().max_fuel_save,
            r.min_fuel == self.spec_cfg().min_fuel,
            r.track_id == self.spec_cfg().track_id,
            r.car_id == self.spec_cfg().car_id,
            r.track_name@ == self.spec_cfg().track_name@,
            r.layout_name@ == self.spec_cfg().layout_name@,
            r.car@ == self.spec_cfg().car@,
    {
        RaceSession {
            fuel_tank_size: self.cfg.fuel_tank_size,
            max_fuel_save: self.cfg.max_fuel_save,
            min_fuel: self.cfg.min_fuel,
            track_id: self.cfg.track_id,
            track_name: self.cfg.track_name.clone(),
            layout_name: self.cfg.layout_name.clone(),
            car_id: self.cfg.car_id,
            car: self.cfg.car.clone(),
        }
    }

    /// How many laps have been recorded.
    pub fn lap_count(&self) -> (r: usize)
        ensures
            r == self.spec_laps().len(),
    {
        self.laps.len()
    }

    /// The tank size of the session, in milli-litres.
    pub fn tank_size(&self) -> (r: u64)
        requires
            self.wf(),
        ensures
            r == self.spec_cfg().fuel_tank_size,
            r <= MAX_FUEL_MILLI,
    {
        self.cfg.fuel_tank_size
    }

    /// How many lap rows the store holds for this session, straight from
    /// the store; nothing with no store attached or on a query failure.
    /// What a query returns depends on the file on disk, so only the
    /// storeless case is pinned. This is the read-back the append-laps
    /// tests observe.
    pub fn stored_lap_rows(&self) -> (r: Option<i64>)
        ensures
            !self.has_db() ==> r is None,
    {
        match &self.db {
            None => None,
            Some(d) => match d.id {
                None => None,
                Some(sid) => match query_one_int(
                    &d.con,
                    "SELECT count(*) FROM Lap WHERE session = ?",
                    sid,
                ) {
                    Ok(n) => Some(n),
                    Err(_) => None,
                },
            },
        }
    }

    /// Records one completed lap.
    pub fn add_lap(&mut self, l: Lap)
        requires
            old(self).wf(),
            lap_wf(l),
            old(self).spec_laps().len() < MAX_SESSION_LAPS,
        ensures
            final(self).wf(),
            final(self).spec_laps() == old(self).spec_laps().push(l),
            final(self).spec_cfg() == old(self).spec_cfg(),
            final(self).spec_def_green() == old(self).spec_def_green(),
            final(self).spec_def_yellow() == old(self).spec_def_yellow(),
            final(self).spec_saved() == old(self).spec_saved(),
            final(self).spec_written() == old(self).spec_written(),
            final(self).has_db() == old(self).has_db(),
    {
        self.laps.push(l);
    }

    /// Flushes the laps the store has not committed yet. On success the
    /// store has committed exactly the recorded laps up to the new mark;
    /// on failure nothing was committed and the mark is unchanged. With
    /// no store attached there is nothing to do.
    pub fn save_laps(&mut self) -> (r: Result<(), HistoryError>)
        requires
            old(self).wf(),
        ensures
            final(self).wf(),
            final(self).spec_laps() == old(self).spec_laps(),
            final(self).spec_cfg() == old(self).spec_cfg(),
            final(self).spec_def_green() == old(self).spec_def_green(),
            final(self).spec_def_yellow() == old(self).spec_def_yellow(),
            final(self).has_db() == old(self).has_db(),
            !old(self).has_db() ==> r is Ok && final(self).spec_saved() == 0,
            !old(self).has_db() ==> final(self).spec_saved() == old(self).spec_saved(),
            !old(self).has_db() ==> final(self).spec_written() == old(self).spec_written(),
            old(self).has_db() && r is Ok ==> final(self).spec_saved() == old(self).spec_laps().len(),
            old(self).has_db() && r is Ok ==> final(self).spec_written() == old(self).spec_written()
                + pending_rows(old(self).spec_laps(), old(self).spec_saved()),
            r is Err ==> final(self).spec_saved() == old(self).spec_saved(),
            r is Err ==> final(self).spec_written() == old(self).spec_written(),
    {
        match &mut self.db {
            None => Ok(()),
            Some(d) => d.save_laps(&self.laps),
        }
    }
}

impl History {
    /// The green-flag rate estimate: the average of the five most recent
    /// plain green laps, falling back to the stored default when fewer
    /// than two exist.
    fn recent_green(&self) -> (r: Option<Rate>)
        requires
            self.wf(),
        ensures
            green_choice(self.spec_laps(), self.spec_def_green(), r),
            r is Some ==> rate_ok(r->Some_0),
    {
        let ghost laps = self.laps@;
        let mut j: usize = self.laps.len();
        let mut c: u64 = 0;
        let mut fuel: u64 = 0;
        let mut time: TimeSpan = TimeSpan::zero();
        let mut slots: u64 = 5;
        proof {
            assert(laps.subrange(0, laps.len() as int) =~= laps);
        }
        while j > 0 && slots > 0
            invariant
                self.wf(),
                laps == self.laps@,
                j <= laps.len(),
                slots == 5 - c,
                c <= 5,
                c <= fuel <= c * (MAX_FUEL_MILLI as int),
                c <= time@ <= c * (MAX_LAP_AVG_NANOS as int),
                green_stats(laps, 5).0 == c + green_stats(laps.subrange(0, j as int), slots as int).0,
                green_stats(laps, 5).1 == fuel + green_stats(laps.subrange(0, j as int), slots as int).1,
                green_stats(laps, 5).2 == time@ + green_stats(laps.subrange(0, j as int), slots as int).2,
            decreases j,
        {
            let ghost pre = laps.subrange(0, j as int);
            proof {
                assert(pre.drop_last() =~= laps.subrange(0, j as int - 1));
                assert(pre.last() == laps[j as int - 1]);
                assert(lap_wf(laps[j as int - 1]));
            }
            let l = &self.laps[j - 1];
            if l.condition.is_empty() {
                proof {
                    assert((c + 1) * (MAX_FUEL_MILLI as int) == c * (MAX_FUEL_MILLI as int)
                        + MAX_FUEL_MILLI) by (nonlinear_arith);
                    assert((c + 1) * (MAX_LAP_AVG_NANOS as int) == c * (MAX_LAP_AVG_NANOS as int)
                        + MAX_LAP_AVG_NANOS) by (nonlinear_arith);
                }
                c = c + 1;
                fuel = fuel + l.fuel_used;
                time = time.plus(l.time);
                slots = slots - 1;
            }
            j = j - 1;
        }
        proof {
            if j == 0 {
                assert(laps.subrange(0, 0) =~= Seq::<Lap>::empty());
            }
            assert(green_stats(laps.subrange(0, j as int), slots as int) == (0int, 0int, 0int));
        }
        if self.def_green.is_some() && c < 2 {
            self.def_green
        } else if c >= 1 {
            let avg_fuel = fuel / c;
            let avg_time = time.div_by(c as u32);
            proof {
                lemma_avg_bounds(fuel as int, c as int, MAX_FUEL_MILLI as int);
                lemma_avg_bounds(time@, c as int, MAX_LAP_AVG_NANOS as int);
            }
            Some(Rate { fuel: avg_fuel, time: avg_time })
        } else {
            None
        }
    }

    /// The caution rate estimate: the average of the counted caution
    /// laps, the first of each caution run discarded as partial, falling
    /// back to the stored default when none was counted.
    fn recent_yellow(&self) -> (r: Option<Rate>)
        requires
            self.wf(),
        ensures
            yellow_choice(self.spec_laps(), self.spec_def_yellow(), r),
            r is Some ==> rate_ok(r->Some_0),
    {
        let ghost laps = self.laps@;
        let n = self.laps.len();
        let mut j: usize = 0;
        let mut run: bool = false;
        let mut c: u64 = 0;
        let mut fuel: u64 = 0;
        let mut time: TimeSpan = TimeSpan::zero();
        while j < n
            invariant
                self.wf(),
                laps == self.laps@,
                n == laps.len(),
                j <= n,
                c <= j,
                c <= fuel <= c * (MAX_FUEL_MILLI as int),
                c <= time@ <= c * (MAX_LAP_AVG_NANOS as int),
                yellow_stats(laps, j as int) == (run, c as int, fuel as int, time@),
            decreases n - j,
        {
            proof {
                assert(lap_wf(laps[j as int]));
                assert((c + 1) * (MAX_FUEL_MILLI as int) == c * (MAX_FUEL_MILLI as int)
                    + MAX_FUEL_MILLI) by (nonlinear_arith);
                assert((c + 1) * (MAX_LAP_AVG_NANOS as int) == c * (MAX_LAP_AVG_NANOS as int)
                    + MAX_LAP_AVG_NANOS) by (nonlinear_arith);
            }
            let l = &self.laps[j];
            if l.condition.intersects(LapState::yellow()) {
                if !run {
                    run = true;
                } else {
                    c = c + 1;
                    fuel = fuel + l.fuel_used;
                    time = time.plus(l.time);
                }
            } else {
                run = false;
            }
            j = j + 1;
        }
        if c == 0 {
            self.def_yellow
        } else {
            let avg_fuel = fuel / c;
            let avg_time = time.div_by(c as u32);
            proof {
                lemma_avg_bounds(fuel as int, c as int, MAX_FUEL_MILLI as int);
                lemma_avg_bounds(time@, c as int, MAX_LAP_AVG_NANOS as int);
            }
            Some(Rate { fuel: avg_fuel, time: avg_time })
        }
    }

    /// How many of the most recent laps ran under caution.
    fn trailing_yellows(&self) -> (r: usize)
        requires
            self.wf(),
        ensures
            r == spec_trailing_yellows(self.spec_laps()),
    {
        let ghost laps = self.laps@;
        let mut j: usize = self.laps.len();
        let mut c: usize = 0;
        proof {
            assert(laps.subrange(0, laps.len() as int) =~= laps);
        }
        while j > 0 && self.laps[j - 1].condition.intersects(LapState::yellow())
            invariant
                self.wf(),
                laps == self.laps@,
                j <= laps.len(),
                c == laps.len() - j,
                spec_trailing_yellows(laps) == c + spec_trailing_yellows(
                    laps.subrange(0, j as int),
                ),
            decreases j,
        {
            proof {
                let pre = laps.subrange(0, j as int);
                assert(pre.drop_last() =~= laps.subrange(0, j as int - 1));
                assert(pre.last() == laps[j as int - 1]);
            }
            c = c + 1;
            j = j - 1;
        }
        proof {
            if j == 0 {
                assert(laps.subrange(0, 0) =~= Seq::<Lap>::empty());
            }
            assert(spec_trailing_yellows(laps.subrange(0, j as int)) == 0);
        }
        c
    }

    /// Assembles the planning request from the estimated rates and asks
    /// the planner for a strategy. Nothing is planned while no green rate
    /// can be estimated, or when a purely timed race would not fit the
    /// planner's lap cap at the estimated green rate.
    pub fn strat(&self, fuel_left: u64, ends: EndsWith) -> (r: Option<Strategy>)
        requires
            self.wf(),
            fuel_left <= MAX_FUEL_MILLI,
        ensures
            green_missing(self.spec_laps(), self.spec_def_green()) ==> r is None,
            !green_missing(self.spec_laps(), self.spec_def_green()) ==> exists|req: StratRequest|
                {
                    &&& #[trigger] strat_request_built(
                        self.spec_cfg(),
                        self.spec_laps(),
                        self.spec_def_green(),
                        self.spec_def_yellow(),
                        fuel_left,
                        ends,
                        req,
                    )
                    &&& ((r is Some) <==> (time_bound_ok(req) && crate::strat::plan_len(req) > 0))
                    &&& (r is Some ==> crate::strat::req_wf(req))
                    &&& (r is Some ==> crate::strat::strategy_matches(req, r->Some_0))
                },
    {
        let green = match self.recent_green() {
            None => {
                proof {
                    let laps = self.spec_laps();
                    let def = self.spec_def_green();
                    let c = green_stats(laps, 5).0;
                    lemma_green_stats_nonneg(laps, 5);
                    if def is Some {
                        if c < 2 {
                            assert(None::<Rate> == def);
                        }
                        assert(false);
                    } else if c >= 1 {
                        assert(false);
                    }
                    assert(green_missing(laps, def));
                }
                return None;
            },
            Some(g) => g,
        };
        let yellow = match self.recent_yellow() {
            Some(y) => y,
            None => Rate { fuel: green.fuel / 3, time: green.time.times(4) },
        };
        let ty = self.trailing_yellows();
        let yellow_togo: u32 = if ty > 0 {
            if ty < 3 {
                (3 - ty) as u32
            } else {
                0
            }
        } else {
            0
        };
        let req = StratRequest {
            fuel_left,
            tank_size: self.cfg.fuel_tank_size,
            max_fuel_save: self.cfg.max_fuel_save,
            min_fuel: self.cfg.min_fuel,
            yellow_togo,
            ends,
            green,
            yellow,
        };
        proof {
            assert(strat_request_built(
                self.spec_cfg(),
                self.spec_laps(),
                self.spec_def_green(),
                self.spec_def_yellow(),
                fuel_left,
                ends,
                req,
            ));
        }
        let fits = match ends {
            EndsWith::Time(d) => d.total_nanos() < green.time.total_nanos() * 0x3fff_ffff,
            EndsWith::Laps(l) => true,
            EndsWith::LapsOrTime(l, d) => true,
        };
        if !fits {
            return None;
        }
        proof {
            assert(crate::strat::req_wf(req));
        }
        req.compute()
    }
}

/// A truncated average of values in `[1, hi]` stays in `[1, hi]`.
proof fn lemma_avg_bounds(sum: int, c: int, hi: int)
    requires
        1 <= c,
        c <= sum <= c * hi,
        1 <= hi,
    ensures
        1 <= sum / c <= hi,
{
    assert(1 <= sum / c <= hi) by (nonlinear_arith)
        requires
            1 <= c,
            c <= sum <= c * hi,
            1 <= hi,
    ;
}

/// The store's high-water mark never runs past the recorded laps; this
/// is the bound the append-idempotence law asks of its mark argument.
pub proof fn lemma_saved_within_laps(h: &History)
    requires
        h.wf(),
    ensures
        0 <= h.spec_saved() <= h.spec_laps().len(),
{
}

/// Accepts a stored average exactly when both parts are positive and
/// within the bounds a recorded lap obeys; fuel arrives in milli-litres
/// and lap time in milliseconds.
fn validated_rate(v: Option<(i64, i64)>) -> (r: Option<Rate>)
    ensures
        (r is Some) <==> (v is Some && 1 <= (v->Some_0).0 <= MAX_FUEL_MILLI && 1 <= (
        v->Some_0).1 <= MAX_LAP_AVG_NANOS / 1_000_000),
        r is Some ==> (r->Some_0).fuel == (v->Some_0).0 && (r->Some_0).time@ == (v->Some_0).1
            * 1_000_000,
        r is Some ==> rate_ok(r->Some_0),
{
    match v {
        None => None,
        Some((f, t)) => {
            if 1 <= f && f <= MAX_FUEL_MILLI as i64 && 1 <= t && t <= (MAX_LAP_AVG_NANOS
                / 1_000_000) as i64 {
                let time = TimeSpan::from_millis(t as u64);
                proof {
                    assert(t * 1_000_000 <= (MAX_LAP_AVG_NANOS / 1_000_000) * 1_000_000)
                        by (nonlinear_arith)
                        requires
                            t <= (MAX_LAP_AVG_NANOS / 1_000_000) as i64,
                    ;
                }
                Some(Rate { fuel: f as u64, time })
            } else {
                None
            }
        },
    }
}

} // verus!
