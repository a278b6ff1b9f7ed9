//! The persisted instance model: the loader column, rows as SQLite hands
//! them back and their validation into instances, partial updates, list
//! orderings, and play-time accounting. The SQL itself runs in the I/O
//! layer; every decision about the values stands here.
use vstd::prelude::*;

use crate::ext::{parse_rfc3339, rfc3339_instant_of};
use crate::ids::{Uuid, hyphenated_form};
use crate::text::{concat2, concat3, owned, str_eq};

verus! {

/// The mod loaders an instance can use.
#[derive(Debug, Clone, Copy, PartialEq, Eq, Structural)]
pub enum Loader {
    Vanilla,
    Fabric,
}

/// The stored name of a loader.
pub open spec fn loader_name(l: Loader) -> Seq<char> {
    match l {
        Loader::Vanilla => "vanilla"@,
        Loader::Fabric => "fabric"@,
    }
}

/// A failure of the persistence layer. Failures of the storage engine
/// itself carry the engine's error text.
#[derive(Debug, Clone, PartialEq, Eq)]
pub enum DatabaseError {
    Connect(String),
    Migrate(String),
    Query(String),
    Io(String),
    InstanceNotFound(Uuid),
    InvalidLoader(String),
    InvalidTimestamp(String),
    InvalidId(String),
}

/// The message shown for a persistence failure.
pub open spec fn database_error_message(e: DatabaseError) -> Seq<char> {
    match e {
        DatabaseError::Connect(_) => "failed to open database connection"@,
        DatabaseError::Migrate(_) => "failed to run database migrations"@,
        DatabaseError::Query(_) => "database query failed"@,
        DatabaseError::Io(_) => "could not prepare database directory"@,
        DatabaseError::InstanceNotFound(id) => "instance "@ + hyphenated_form(id.bytes@)
            + " was not found"@,
        DatabaseError::InvalidLoader(s) => "'"@ + s@ + "' is not a recognized mod loader"@,
        DatabaseError::InvalidTimestamp(s) => "stored timestamp '"@ + s@
            + "' could not be parsed"@,
        DatabaseError::InvalidId(s) => "stored id '"@ + s@ + "' is not a valid UUID"@,
    }
}

impl DatabaseError {
    /// The message shown for this failure.
    pub fn message(&self) -> (r: String)
        ensures
            r@ == database_error_message(*self),
    {
        match self {
            DatabaseError::Connect(_) => owned("failed to open database connection"),
            DatabaseError::Migrate(_) => owned("failed to run database migrations"),
            DatabaseError::Query(_) => owned("database query failed"),
            DatabaseError::Io(_) => owned("could not prepare database directory"),
            DatabaseError::InstanceNotFound(id) => concat3(
                "instance ",
                id.to_hyphenated_string().as_str(),
                " was not found",
            ),
            DatabaseError::InvalidLoader(s) => concat3(
                "'",
                s.as_str(),
                "' is not a recognized mod loader",
            ),
            DatabaseError::InvalidTimestamp(s) => concat3(
                "stored timestamp '",
                s.as_str(),
                "' could not be parsed",
            ),
            DatabaseError::InvalidId(s) => concat3(
                "stored id '",
                s.as_str(),
                "' is not a valid UUID",
            ),
        }
    }
}

impl Loader {
    /// `vanilla` or `fabric`.
    pub fn as_str(&self) -> (r: &'static str)
        ensures
            r@ == loader_name(*self),
    {
        match self {
            Loader::Vanilla => "vanilla",
            Loader::Fabric => "fabric",
        }
    }

    /// Reads a stored loader name; anything but `vanilla` or `fabric`
    /// (exactly) is refused.
    pub fn from_str(s: &str) -> (r: Result<Loader, DatabaseError>)
        ensures
            match parsed_loader(s@) {
                Some(l) => r == Ok::<Loader, DatabaseError>(l),
                None => r matches Err(DatabaseError::InvalidLoader(x)) && x@ == s@,
            },
    {
        if str_eq(s, "vanilla") {
            Ok(Loader::Vanilla)
        } else if str_eq(s, "fabric") {
            Ok(Loader::Fabric)
        } else {
            Err(DatabaseError::InvalidLoader(owned(s)))
        }
    }
}

/// The loader a stored name denotes, if any.
pub open spec fn parsed_loader(s: Seq<char>) -> Option<Loader> {
    if s == "vanilla"@ {
        Some(Loader::Vanilla)
    } else if s == "fabric"@ {
        Some(Loader::Fabric)
    } else {
        None
    }
}

/// Storing a loader and reading it back gives the same loader, and a name
/// that reads as a loader is exactly that loader's stored name.
pub proof fn lemma_loader_round_trip(l: Loader, s: Seq<char>)
    ensures
        parsed_loader(loader_name(l)) == Some(l),
        parsed_loader(s) matches Some(k) ==> loader_name(k) == s,
{
    reveal_strlit("vanilla");
    reveal_strlit("fabric");
    assert("vanilla"@ != "fabric"@) by {
        assert("vanilla"@[0] != "fabric"@[0]);
    }
}

/// An instant: whole seconds since the Unix epoch and the sub-second
/// nanoseconds.
#[derive(Debug, Clone, Copy, PartialEq, Eq, Structural)]
pub struct Timestamp {
    pub secs: i64,
    pub nanos: u32,
}

/// A fully loaded instance.
#[derive(Debug, Clone)]
pub struct Instance {
    pub id: Uuid,
    pub name: String,
    pub loader: Loader,
    pub loader_version: Option<String>,
    pub minecraft_version: String,
    pub icon: Option<String>,
    pub group_name: Option<String>,
    pub favorite: bool,
    pub java_path: Option<String>,
    pub java_args: Option<String>,
    pub memory_min_mb: u32,
    pub memory_max_mb: u32,
    pub window_width: u32,
    pub window_height: u32,
    pub fullscreen: bool,
    pub game_args: Option<String>,
    pub last_played_at: Option<Timestamp>,
    pub total_playtime_seconds: i64,
    pub created_at: Timestamp,
    pub updated_at: Timestamp,
}

/// What creating an instance takes; every other field gets the schema's
/// default.
#[derive(Debug, Clone)]
pub struct InstanceDraft {
    pub name: String,
    pub loader: Loader,
    pub loader_version: Option<String>,
    pub minecraft_version: String,
    pub icon: Option<String>,
}

/// A partial update: only the fields given are written.
#[derive(Debug, Clone)]
pub struct InstanceUpdate {
    pub name: Option<String>,
    pub icon: Option<String>,
    pub group_name: Option<String>,
    pub favorite: Option<bool>,
    pub java_path: Option<String>,
    pub java_args: Option<String>,
    pub memory_min_mb: Option<u32>,
    pub memory_max_mb: Option<u32>,
    pub window_width: Option<u32>,
    pub window_height: Option<u32>,
    pub fullscreen: Option<bool>,
    pub game_args: Option<String>,
}

/// Whether an update gives no field at all.
pub open spec fn is_empty_update(u: InstanceUpdate) -> bool {
    &&& u.name is None
    &&& u.icon is None
    &&& u.group_name is None
    &&& u.favorite is None
    &&& u.java_path is None
    &&& u.java_args is None
    &&& u.memory_min_mb is None
    &&& u.memory_max_mb is None
    &&& u.window_width is None
    &&& u.window_height is None
    &&& u.fullscreen is None
    &&& u.game_args is None
}

impl Default for InstanceUpdate {
    fn default() -> (r: InstanceUpdate)
        ensures
            is_empty_update(r),
    {
        InstanceUpdate {
            name: None,
            icon: None,
            group_name: None,
            favorite: None,
            java_path: None,
            java_args: None,
            memory_min_mb: None,
            memory_max_mb: None,
            window_width: None,
            window_height: None,
            fullscreen: None,
            game_args: None,
        }
    }
}

/// The given value, else the current one.
pub open spec fn or_keep<T>(given: Option<T>, current: T) -> T {
    match given {
        Some(v) => v,
        None => current,
    }
}

/// The given optional value, else the current one (a stored value cannot be
/// cleared by an update).
pub open spec fn or_keep_opt<T>(given: Option<T>, current: Option<T>) -> Option<T> {
    match given {
        Some(v) => Some(v),
        None => current,
    }
}

/// An instance with an update applied: every field the update gives
/// replaces the stored one, every other field stays.
pub open spec fn updated_instance(i: Instance, u: InstanceUpdate) -> Instance {
    Instance {
        name: or_keep(u.name, i.name),
        icon: or_keep_opt(u.icon, i.icon),
        group_name: or_keep_opt(u.group_name, i.group_name),
        favorite: or_keep(u.favorite, i.favorite),
        java_path: or_keep_opt(u.java_path, i.java_path),
        java_args: or_keep_opt(u.java_args, i.java_args),
        memory_min_mb: or_keep(u.memory_min_mb, i.memory_min_mb),
        memory_max_mb: or_keep(u.memory_max_mb, i.memory_max_mb),
        window_width: or_keep(u.window_width, i.window_width),
        window_height: or_keep(u.window_height, i.window_height),
        fullscreen: or_keep(u.fullscreen, i.fullscreen),
        game_args: or_keep_opt(u.game_args, i.game_args),
        ..i
    }
}

/// An update changes only what it gives: the empty update changes nothing,
/// applying an update twice is applying it once, and identity, loader,
/// versions, play time and timestamps are never touched.
pub proof fn lemma_update_laws(i: Instance, u: InstanceUpdate)
    ensures
        is_empty_update(u) ==> updated_instance(i, u) == i,
        updated_instance(updated_instance(i, u), u) == updated_instance(i, u),
        updated_instance(i, u).id == i.id,
        updated_instance(i, u).loader == i.loader,
        updated_instance(i, u).loader_version == i.loader_version,
        updated_instance(i, u).minecraft_version == i.minecraft_version,
        updated_instance(i, u).total_playtime_seconds == i.total_playtime_seconds,
        updated_instance(i, u).last_played_at == i.last_played_at,
        updated_instance(i, u).created_at == i.created_at,
{
}

/// Every field an update gives replaces the stored one (a rename renames,
/// a new memory bound is the bound, a new icon is the icon, ...), and every
/// field it leaves out keeps its stored value.
pub proof fn lemma_update_replaces_given_fields(i: Instance, u: InstanceUpdate)
    ensures
        u.name matches Some(v) ==> updated_instance(i, u).name == v,
        u.name is None ==> updated_instance(i, u).name == i.name,
        u.favorite matches Some(v) ==> updated_instance(i, u).favorite == v,
        u.favorite is None ==> updated_instance(i, u).favorite == i.favorite,
        u.memory_min_mb matches Some(v) ==> updated_instance(i, u).memory_min_mb == v,
        u.memory_min_mb is None ==> updated_instance(i, u).memory_min_mb == i.memory_min_mb,
        u.memory_max_mb matches Some(v) ==> updated_instance(i, u).memory_max_mb == v,
        u.memory_max_mb is None ==> updated_instance(i, u).memory_max_mb == i.memory_max_mb,
        u.window_width matches Some(v) ==> updated_instance(i, u).window_width == v,
        u.window_width is None ==> updated_instance(i, u).window_width == i.window_width,
        u.window_height matches Some(v) ==> updated_instance(i, u).window_height == v,
        u.window_height is None ==> updated_instance(i, u).window_height == i.window_height,
        u.fullscreen matches Some(v) ==> updated_instance(i, u).fullscreen == v,
        u.fullscreen is None ==> updated_instance(i, u).fullscreen == i.fullscreen,
        u.icon matches Some(v) ==> updated_instance(i, u).icon == Some(v),
        u.icon is None ==> updated_instance(i, u).icon == i.icon,
        u.group_name matches Some(v) ==> updated_instance(i, u).group_name == Some(v),
        u.group_name is None ==> updated_instance(i, u).group_name == i.group_name,
        u.java_path matches Some(v) ==> updated_instance(i, u).java_path == Some(v),
        u.java_path is None ==> updated_instance(i, u).java_path == i.java_path,
        u.java_args matches Some(v) ==> updated_instance(i, u).java_args == Some(v),
        u.java_args is None ==> updated_instance(i, u).java_args == i.java_args,
        u.game_args matches Some(v) ==> updated_instance(i, u).game_args == Some(v),
        u.game_args is None ==> updated_instance(i, u).game_args == i.game_args,
{
}

impl Instance {
    /// This instance with `update` applied (see [`updated_instance`]); the
    /// write itself, and the new modification time, are the storage layer's.
    pub fn with_update(self, update: InstanceUpdate) -> (r: Instance)
        ensures
            r == updated_instance(self, update),
    {
        let i = self;
        let u = update;
        Instance {
            name: match u.name {
                Some(v) => v,
                None => i.name,
            },
            icon: match u.icon {
                Some(v) => Some(v),
                None => i.icon,
            },
            group_name: match u.group_name {
                Some(v) => Some(v),
                None => i.group_name,
            },
            favorite: match u.favorite {
                Some(v) => v,
                None => i.favorite,
            },
            java_path: match u.java_path {
                Some(v) => Some(v),
                None => i.java_path,
            },
            java_args: match u.java_args {
                Some(v) => Some(v),
                None => i.java_args,
            },
            memory_min_mb: match u.memory_min_mb {
                Some(v) => v,
                None => i.memory_min_mb,
            },
            memory_max_mb: match u.memory_max_mb {
                Some(v) => v,
                None => i.memory_max_mb,
            },
            window_width: match u.window_width {
                Some(v) => v,
                None => i.window_width,
            },
            window_height: match u.window_height {
                Some(v) => v,
                None => i.window_height,
            },
            fullscreen: match u.fullscreen {
                Some(v) => v,
                None => i.fullscreen,
            },
            game_args: match u.game_args {
                Some(v) => Some(v),
                None => i.game_args,
            },
            ..i
        }
    }
}

/// A row of the `instances` table as SQLite hands it back, unvalidated.
#[derive(Debug, Clone)]
pub struct InstanceRow {
    pub id: String,
    pub name: String,
    pub loader: String,
    pub loader_version: Option<String>,
    pub minecraft_version: String,
    pub icon: Option<String>,
    pub group_name: Option<String>,
    pub favorite: i64,
    pub java_path: Option<String>,
    pub java_args: Option<String>,
    pub memory_min_mb: i64,
    pub memory_max_mb: i64,
    pub window_width: i64,
    pub window_height: i64,
    pub fullscreen: i64,
    pub game_args: Option<String>,
    pub last_played_at: Option<String>,
    pub total_playtime_seconds: i64,
    pub created_at: String,
    pub updated_at: String,
}

/// The instant a stored RFC 3339 timestamp denotes, if it parses.
pub open spec fn stored_instant(s: Seq<char>) -> Option<Timestamp> {
    match rfc3339_instant_of(s) {
        Some((secs, nanos)) => Some(Timestamp { secs, nanos }),
        None => None,
    }
}

/// Reads a stored timestamp; refused as `InvalidTimestamp` when it is not
/// RFC 3339.
pub fn parse_timestamp(s: &str) -> (r: Result<Timestamp, DatabaseError>)
    ensures
        match stored_instant(s@) {
            Some(t) => r == Ok::<Timestamp, DatabaseError>(t),
            None => r matches Err(DatabaseError::InvalidTimestamp(x)) && x@ == s@,
        },
{
    match parse_rfc3339(s) {
        Some((secs, nanos)) => Ok(Timestamp { secs, nanos }),
        None => Err(DatabaseError::InvalidTimestamp(owned(s))),
    }
}

/// Whether every field of a row validates: the id is a UUID, the loader
/// a known name, and every timestamp RFC 3339.
pub open spec fn row_valid(row: InstanceRow) -> bool {
    &&& crate::ext::uuid_parse_of(row.id@) is Some
    &&& (row.loader@ == "vanilla"@ || row.loader@ == "fabric"@)
    &&& (row.last_played_at matches Some(t) ==> stored_instant(t@) is Some)
    &&& stored_instant(row.created_at@) is Some
    &&& stored_instant(row.updated_at@) is Some
}

/// The first failure of a row, checked in the order id, loader, last
/// played, created, updated.
pub open spec fn row_error(row: InstanceRow) -> DatabaseError {
    if crate::ext::uuid_parse_of(row.id@) is None {
        DatabaseError::InvalidId(row.id)
    } else if !(row.loader@ == "vanilla"@ || row.loader@ == "fabric"@) {
        DatabaseError::InvalidLoader(row.loader)
    } else if row.last_played_at matches Some(t) && stored_instant(t@) is None {
        DatabaseError::InvalidTimestamp(row.last_played_at->0)
    } else if stored_instant(row.created_at@) is None {
        DatabaseError::InvalidTimestamp(row.created_at)
    } else {
        DatabaseError::InvalidTimestamp(row.updated_at)
    }
}

/// Whether two errors are the same up to the text they carry.
pub open spec fn same_error(a: DatabaseError, b: DatabaseError) -> bool {
    match (a, b) {
        (DatabaseError::InvalidId(x), DatabaseError::InvalidId(y)) => x@ == y@,
        (DatabaseError::InvalidLoader(x), DatabaseError::InvalidLoader(y)) => x@ == y@,
        (DatabaseError::InvalidTimestamp(x), DatabaseError::InvalidTimestamp(y)) => x@ == y@,
        _ => false,
    }
}

/// The instance a valid row describes. Integer columns are narrowed as
/// stored (the schema keeps them in range); flags are true when non-zero.
pub open spec fn instance_of_row(row: InstanceRow, id: Uuid) -> Instance {
    Instance {
        id,
        name: row.name,
        loader: if row.loader@ == "vanilla"@ {
            Loader::Vanilla
        } else {
            Loader::Fabric
        },
        loader_version: row.loader_version,
        minecraft_version: row.minecraft_version,
        icon: row.icon,
        group_name: row.group_name,
        favorite: row.favorite != 0,
        java_path: row.java_path,
        java_args: row.java_args,
        memory_min_mb: row.memory_min_mb as u32,
        memory_max_mb: row.memory_max_mb as u32,
        window_width: row.window_width as u32,
        window_height: row.window_height as u32,
        fullscreen: row.fullscreen != 0,
        game_args: row.game_args,
        last_played_at: match row.last_played_at {
            Some(t) => stored_instant(t@),
            None => None,
        },
        total_playtime_seconds: row.total_playtime_seconds,
        created_at: stored_instant(row.created_at@)->0,
        updated_at: stored_instant(row.updated_at@)->0,
    }
}

impl Instance {
    /// Validates a stored row into an instance (see [`row_valid`]); the first
    /// field that fails decides the error (see [`row_error`]).
    pub fn try_from(row: InstanceRow) -> (r: Result<Instance, DatabaseError>)
        ensures
            row_valid(row) ==> (r matches Ok(i) && i.id.bytes@ == crate::ext::uuid_parse_of(row.id@)->0
                && i == instance_of_row(row, i.id)),
            !row_valid(row) ==> (r matches Err(e) && same_error(e, row_error(row))),
    {
        let id = match Uuid::parse_str(row.id.as_str()) {
            Some(u) => u,
            None => {
                return Err(DatabaseError::InvalidId(row.id));
            },
        };
        let loader = match Loader::from_str(row.loader.as_str()) {
            Ok(l) => l,
            Err(e) => {
                return Err(e);
            },
        };
        let last_played_at = match &row.last_played_at {
            Some(t) => match parse_timestamp(t.as_str()) {
                Ok(v) => Some(v),
                Err(e) => {
                    return Err(e);
                },
            },
            None => None,
        };
        let created_at = match parse_timestamp(row.created_at.as_str()) {
            Ok(v) => v,
            Err(e) => {
                return Err(e);
            },
        };
        let updated_at = match parse_timestamp(row.updated_at.as_str()) {
            Ok(v) => v,
            Err(e) => {
                return Err(e);
            },
        };
        Ok(
            Instance {
                id,
                name: row.name,
                loader,
                loader_version: row.loader_version,
                minecraft_version: row.minecraft_version,
                icon: row.icon,
                group_name: row.group_name,
                favorite: row.favorite != 0,
                java_path: row.java_path,
                java_args: row.java_args,
                memory_min_mb: row.memory_min_mb as u32,
                memory_max_mb: row.memory_max_mb as u32,
                window_width: row.window_width as u32,
                window_height: row.window_height as u32,
                fullscreen: row.fullscreen != 0,
                game_args: row.game_args,
                last_played_at,
                total_playtime_seconds: row.total_playtime_seconds,
                created_at,
                updated_at,
            },
        )
    }
}

/// How a list of instances is ordered for display.
#[derive(Debug, Clone, Copy, PartialEq, Eq, Structural)]
pub enum InstanceSort {
    RecentlyPlayed,
    NameAscending,
    NameDescending,
    FavoritesFirst,
}

/// The SQL ordering of a sort: most recently played first (never-played
/// last, then newest), by name either way ignoring case, or favourites
/// first then by name.
pub open spec fn order_by_of(s: InstanceSort) -> Seq<char> {
    match s {
        InstanceSort::RecentlyPlayed => "ORDER BY last_played_at IS NULL, last_played_at DESC, created_at DESC"@,
        InstanceSort::NameAscending => "ORDER BY name COLLATE NOCASE ASC"@,
        InstanceSort::NameDescending => "ORDER BY name COLLATE NOCASE DESC"@,
        InstanceSort::FavoritesFirst => "ORDER BY favorite DESC, name COLLATE NOCASE ASC"@,
    }
}

impl Default for InstanceSort {
    fn default() -> (r: InstanceSort)
        ensures
            r == InstanceSort::RecentlyPlayed,
    {
        InstanceSort::RecentlyPlayed
    }
}

impl InstanceSort {
    /// The `ORDER BY` clause of this sort.
    pub fn order_by_clause(&self) -> (r: &'static str)
        ensures
            r@ == order_by_of(*self),
    {
        match self {
            InstanceSort::RecentlyPlayed => "ORDER BY last_played_at IS NULL, last_played_at DESC, created_at DESC",
            InstanceSort::NameAscending => "ORDER BY name COLLATE NOCASE ASC",
            InstanceSort::NameDescending => "ORDER BY name COLLATE NOCASE DESC",
            InstanceSort::FavoritesFirst => "ORDER BY favorite DESC, name COLLATE NOCASE ASC",
        }
    }

    /// The whole listing query of this sort.
    pub fn list_query(&self) -> (r: String)
        ensures
            r@ == "SELECT * FROM instances "@ + order_by_of(*self),
    {
        concat2("SELECT * FROM instances ", self.order_by_clause())
    }
}

/// The play time a session of `session_seconds` adds: its length, or
/// nothing for a negative one.
pub open spec fn credit_of(session_seconds: i64) -> int {
    if session_seconds < 0 {
        0
    } else {
        session_seconds as int
    }
}

/// An instance after a play session of `session_seconds` that ended at
/// `now`: last played then, its play time grown by the session's credit,
/// updated then; nothing else changes.
pub open spec fn after_session(i: Instance, session_seconds: i64, now: Timestamp) -> Instance {
    Instance {
        last_played_at: Some(now),
        total_playtime_seconds: (i.total_playtime_seconds + credit_of(session_seconds)) as i64,
        updated_at: now,
        ..i
    }
}

/// Records a play session on `instance` (see [`after_session`]); `None`
/// when the total play time would no longer fit in an `i64`.
pub fn with_session(instance: Instance, session_seconds: i64, now: Timestamp) -> (r: Option<Instance>)
    ensures
        (r is Some) <==> instance.total_playtime_seconds + credit_of(session_seconds) <= i64::MAX,
        r matches Some(j) ==> j == after_session(instance, session_seconds, now),
{
    let credit = session_credit(session_seconds);
    match instance.total_playtime_seconds.checked_add(credit) {
        None => None,
        Some(total) => Some(
            Instance { last_played_at: Some(now), total_playtime_seconds: total, updated_at: now, ..instance },
        ),
    }
}

/// Sessions accumulate: after two sessions the play time has grown by both
/// credits, and the instance was last played at the second one's end.
pub proof fn lemma_sessions_accumulate(i: Instance, a: i64, b: i64, t1: Timestamp, t2: Timestamp)
    requires
        i.total_playtime_seconds + credit_of(a) + credit_of(b) <= i64::MAX,
    ensures
        after_session(after_session(i, a, t1), b, t2).total_playtime_seconds == i.total_playtime_seconds
            + credit_of(a) + credit_of(b),
        after_session(after_session(i, a, t1), b, t2).last_played_at == Some(t2),
        after_session(after_session(i, a, t1), b, t2).id == i.id,
{
}

/// The play time a session adds: its length, or nothing for a negative one.
pub fn session_credit(session_seconds: i64) -> (r: i64)
    ensures
        r == credit_of(session_seconds),
        r >= 0,
{
    if session_seconds < 0 {
        0
    } else {
        session_seconds
    }
}

} // verus!
