//! The parts of local storage that are not I/O: where the database lives,
//! the schema's migration sequence, and how match statuses are stored.

use vstd::prelude::*;

use crate::domain::matches::MatchStatus;
use crate::text::same_text;

verus! {

/// Where the database file was placed.
#[derive(Clone, Copy, Debug, Eq, PartialEq, Structural)]
pub enum DbLocation {
    /// Beside the project, for development builds.
    ProjectLocal,
    /// In the operating system's application-data directory.
    AppData,
}

pub open spec fn db_location_label(l: DbLocation) -> Seq<char> {
    match l {
        DbLocation::ProjectLocal => "project-local"@,
        DbLocation::AppData => "app-data"@,
    }
}

impl DbLocation {
    pub fn label(&self) -> (r: &'static str)
        ensures
            r@ == db_location_label(*self),
    {
        match self {
            DbLocation::ProjectLocal => "project-local",
            DbLocation::AppData => "app-data",
        }
    }
}

/// What opening the database found.
#[derive(Debug)]
pub struct DatabaseInfo {
    pub path: String,
    pub location: DbLocation,
    pub sqlite_version: String,
    pub applied_migrations: usize,
}

/// A handle on the database file.
#[derive(Debug)]
pub struct SqliteRepository {
    pub path: String,
}

impl SqliteRepository {
    pub fn new(path: String) -> (r: Self)
        ensures
            r.path@ == path@,
    {
        SqliteRepository { path }
    }
}

/// The schema's migrations, in the order they are applied.
pub open spec fn migration_sequence() -> Seq<Seq<char>> {
    seq![
        "202606180001_init"@,
        "202606180002_sync_metadata"@,
        "202606180003_standings_fair_play"@,
        "202606180004_team_rankings"@,
    ]
}

/// The version names of the schema's migrations, in the order they are
/// applied.
pub fn migration_versions() -> (r: Vec<&'static str>)
    ensures
        r@.map_values(|v: &'static str| v@) == migration_sequence(),
{
    let r: Vec<&'static str> = vec![
        "202606180001_init",
        "202606180002_sync_metadata",
        "202606180003_standings_fair_play",
        "202606180004_team_rankings",
    ];
    assert(r@.map_values(|v: &'static str| v@) =~= migration_sequence());
    r
}

/// The oldest SQLite with the JSONB functions the schema relies on, in
/// SQLite's version numbering (3.45.0).
pub const MIN_SQLITE_VERSION: i32 = 3045000;

/// Whether a SQLite of this version number can hold the schema.
pub fn sqlite_version_supported(version_number: i32) -> (r: bool)
    ensures
        r == (version_number >= MIN_SQLITE_VERSION),
{
    version_number >= MIN_SQLITE_VERSION
}

/// The migrations of `versions` not yet recorded in `done`, in order.
pub open spec fn pending(versions: Seq<Seq<char>>, done: Seq<Seq<char>>) -> Seq<Seq<char>>
    decreases versions.len(),
{
    if versions.len() == 0 {
        Seq::empty()
    } else {
        let rest = pending(versions.drop_last(), done);
        if done.contains(versions.last()) {
            rest
        } else {
            rest.push(versions.last())
        }
    }
}

fn recorded(done: &[String], version: &str) -> (r: bool)
    ensures
        r == done@.map_values(|d: String| d@).contains(version@),
{
    let ghost views = done@.map_values(|d: String| d@);
    let mut i: usize = 0;
    while i < done.len()
        invariant
            i <= done@.len(),
            views == done@.map_values(|d: String| d@),
            forall|k: int| 0 <= k < i ==> views[k] != version@,
        decreases done@.len() - i,
    {
        if same_text(done[i].as_str(), version) {
            assert(views[i as int] == version@);
            return true;
        }
        i = i + 1;
    }
    false
}

/// The migrations still to apply to a database that has recorded `done`,
/// in the order they are applied.
pub fn pending_migrations(done: &[String]) -> (r: Vec<&'static str>)
    ensures
        r@.map_values(|v: &'static str| v@) == pending(migration_sequence(), done@.map_values(|d: String| d@)),
{
    let all = migration_versions();
    let ghost seq = migration_sequence();
    let ghost done_views = done@.map_values(|d: String| d@);
    let mut r: Vec<&'static str> = Vec::new();
    let mut i: usize = 0;
    assert(seq.take(0) =~= Seq::<Seq<char>>::empty());
    while i < all.len()
        invariant
            i <= all@.len(),
            all@.map_values(|v: &'static str| v@) == seq,
            done_views == done@.map_values(|d: String| d@),
            r@.map_values(|v: &'static str| v@) == pending(seq.take(i as int), done_views),
        decreases all@.len() - i,
    {
        let v = all[i];
        proof {
            assert(seq.take(i + 1).drop_last() =~= seq.take(i as int));
            assert(seq.take(i + 1).last() == v@);
        }
        if !recorded(done, v) {
            let ghost before = r@;
            r.push(v);
            assert(r@.map_values(|x: &'static str| x@) =~= before.map_values(|x: &'static str| x@).push(v@));
        }
        i = i + 1;
    }
    assert(seq.take(all@.len() as int) =~= seq);
    r
}

/// The number a match status is stored as: FIFA's own status code.
pub open spec fn status_code(status: MatchStatus) -> u16 {
    match status {
        MatchStatus::Scheduled => 1,
        MatchStatus::Live => 3,
        MatchStatus::FullTime => 0,
        MatchStatus::ExtraTime => 4,
        MatchStatus::Penalties => 5,
        MatchStatus::Postponed => 6,
        MatchStatus::Cancelled => 7,
        MatchStatus::Unknown(v) => v,
    }
}

/// The status a stored number stands for.
pub open spec fn status_of_code(value: u16) -> MatchStatus {
    if value == 1 {
        MatchStatus::Scheduled
    } else if value == 3 {
        MatchStatus::Live
    } else if value == 0 {
        MatchStatus::FullTime
    } else if value == 4 {
        MatchStatus::ExtraTime
    } else if value == 5 {
        MatchStatus::Penalties
    } else if value == 6 {
        MatchStatus::Postponed
    } else if value == 7 {
        MatchStatus::Cancelled
    } else {
        MatchStatus::Unknown(value)
    }
}

pub fn match_status_to_storage(status: MatchStatus) -> (r: u16)
    ensures
        r == status_code(status),
{
    match status {
        MatchStatus::Scheduled => 1,
        MatchStatus::Live => 3,
        MatchStatus::FullTime => 0,
        MatchStatus::ExtraTime => 4,
        MatchStatus::Penalties => 5,
        MatchStatus::Postponed => 6,
        MatchStatus::Cancelled => 7,
        MatchStatus::Unknown(v) => v,
    }
}

pub fn match_status_from_storage(value: u16) -> (r: MatchStatus)
    ensures
        r == status_of_code(value),
{
    if value == 1 {
        MatchStatus::Scheduled
    } else if value == 3 {
        MatchStatus::Live
    } else if value == 0 {
        MatchStatus::FullTime
    } else if value == 4 {
        MatchStatus::ExtraTime
    } else if value == 5 {
        MatchStatus::Penalties
    } else if value == 6 {
        MatchStatus::Postponed
    } else if value == 7 {
        MatchStatus::Cancelled
    } else {
        MatchStatus::Unknown(value)
    }
}

/// The pending migrations are exactly those not yet recorded: a migration is
/// pending when it is one of them and not recorded; with nothing recorded
/// all are pending in their order, and with all recorded none is.
pub proof fn pending_is_what_is_not_recorded(versions: Seq<Seq<char>>, done: Seq<Seq<char>>)
    ensures
        forall|v: Seq<char>| #[trigger] pending(versions, done).contains(v) <==> (versions.contains(v) && !done.contains(v)),
        pending(versions, done).len() <= versions.len(),
        (forall|v: Seq<char>| !done.contains(v)) ==> pending(versions, done) == versions,
        (forall|i: int| 0 <= i < versions.len() ==> done.contains(#[trigger] versions[i])) ==> pending(
            versions,
            done,
        ).len() == 0,
    decreases versions.len(),
{
    if versions.len() > 0 {
        let init = versions.drop_last();
        let x = versions.last();
        pending_is_what_is_not_recorded(init, done);
        let rest = pending(init, done);
        assert(versions =~= init.push(x));
        assert forall|v: Seq<char>| #[trigger] pending(versions, done).contains(v) <==> (versions.contains(v)
            && !done.contains(v)) by {
            if versions.contains(v) {
                let k = choose|k: int| 0 <= k < versions.len() && versions[k] == v;
                if k < init.len() {
                    assert(init[k] == v);
                    assert(init.contains(v));
                }
            }
            if init.contains(v) {
                let k = choose|k: int| 0 <= k < init.len() && init[k] == v;
                assert(versions[k] == v);
            }
            if !done.contains(x) {
                assert(rest.push(x)[rest.len() as int] == x);
                if rest.contains(v) {
                    let k = choose|k: int| 0 <= k < rest.len() && rest[k] == v;
                    assert(rest.push(x)[k] == v);
                }
                if rest.push(x).contains(v) {
                    let k = choose|k: int| 0 <= k < rest.len() + 1 && rest.push(x)[k] == v;
                    if k < rest.len() {
                        assert(rest[k] == v);
                    }
                }
            }
            assert(versions[versions.len() - 1] == x);
        }
        if forall|i: int| 0 <= i < versions.len() ==> done.contains(#[trigger] versions[i]) {
            assert forall|i: int| 0 <= i < init.len() implies done.contains(#[trigger] init[i]) by {
                assert(versions[i] == init[i]);
            }
            assert(done.contains(versions[versions.len() - 1]));
        }
    }
}

/// Reading back a stored status number gives the number again, and a status
/// reads back as itself unless it is an unknown status carrying one of the
/// known codes.
pub proof fn stored_status_round_trip(status: MatchStatus, value: u16)
    ensures
        status_code(status_of_code(value)) == value,
        !(status matches MatchStatus::Unknown(v) && v <= 7 && v != 2) ==> status_of_code(
            status_code(status),
        ) == status,
{
}

/// Each migration's version sorts after the one before it, so they are
/// applied in a fixed order and none repeats.
pub proof fn migrations_are_strictly_ordered(i: int, j: int)
    requires
        0 <= i < j < migration_sequence().len(),
    ensures
        crate::text::text_order(migration_sequence()[i], migration_sequence()[j])
            == crate::text::Order::Less,
{
    reveal_strlit("202606180001_init");
    reveal_strlit("202606180002_sync_metadata");
    reveal_strlit("202606180003_standings_fair_play");
    reveal_strlit("202606180004_team_rankings");
    let a = migration_sequence()[i];
    let b = migration_sequence()[j];
    assert(a[11] != b[11] && (a[11] as u32) < (b[11] as u32));
    lemma_less_at(a, b, 11);
}

/// Two texts that agree on their first `k` characters and differ at
/// position `k` are ordered by that character.
proof fn lemma_less_at(a: Seq<char>, b: Seq<char>, k: int)
    requires
        0 <= k < a.len(),
        k < b.len(),
        forall|m: int| 0 <= m < k ==> a[m] == b[m],
        (a[k] as u32) < (b[k] as u32),
    ensures
        crate::text::text_order(a, b) == crate::text::Order::Less,
    decreases k,
{
    if k > 0 {
        assert(a[0] == b[0]);
        lemma_less_at(a.drop_first(), b.drop_first(), k - 1);
    }
}

} // verus!
