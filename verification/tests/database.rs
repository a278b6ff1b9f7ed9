use launcher::database::{
    parse_timestamp, session_credit, with_session, DatabaseError, Instance, InstanceRow, InstanceSort, InstanceUpdate, Loader,
};
use launcher::ids::Uuid;

fn row() -> InstanceRow {
    InstanceRow {
        id: "67e55044-10b1-426f-9247-bb680e5fe0c8".to_string(),
        name: "Survival World".to_string(),
        loader: "fabric".to_string(),
        loader_version: Some("0.16.9".to_string()),
        minecraft_version: "1.21.1".to_string(),
        icon: None,
        group_name: Some("Main".to_string()),
        favorite: 1,
        java_path: None,
        java_args: Some("-Xss2M".to_string()),
        memory_min_mb: 1024,
        memory_max_mb: 4096,
        window_width: 854,
        window_height: 480,
        fullscreen: 0,
        game_args: None,
        last_played_at: Some("2024-01-01T00:00:10+00:00".to_string()),
        total_playtime_seconds: 165,
        created_at: "2024-01-01T00:00:00Z".to_string(),
        updated_at: "2024-01-01T01:00:00.5+01:00".to_string(),
    }
}

#[test]
fn loader_names_round_trip() {
    for l in [Loader::Vanilla, Loader::Fabric] {
        assert_eq!(Loader::from_str(l.as_str()), Ok(l));
    }
    assert_eq!(Loader::Vanilla.as_str(), "vanilla");
    assert_eq!(Loader::Fabric.as_str(), "fabric");
    assert_eq!(Loader::from_str("Forge"), Err(DatabaseError::InvalidLoader("Forge".to_string())));
    assert_eq!(
        Loader::from_str("Forge").unwrap_err().message(),
        "'Forge' is not a recognized mod loader"
    );
}

#[test]
fn valid_row_becomes_an_instance() {
    let i = Instance::try_from(row()).unwrap();
    assert_eq!(i.id.to_hyphenated_string(), "67e55044-10b1-426f-9247-bb680e5fe0c8");
    assert_eq!(i.loader, Loader::Fabric);
    assert!(i.favorite);
    assert!(!i.fullscreen);
    assert_eq!(i.memory_max_mb, 4096);
    assert_eq!(i.total_playtime_seconds, 165);
    assert_eq!(i.created_at.secs, 1_704_067_200);
    assert_eq!(i.last_played_at.unwrap().secs, 1_704_067_210);
    assert_eq!(i.updated_at.secs, 1_704_067_200);
    assert_eq!(i.updated_at.nanos, 500_000_000);
}

#[test]
fn invalid_rows_are_refused_field_by_field() {
    let mut r = row();
    r.id = "nope".to_string();
    r.loader = "forge".to_string();
    assert_eq!(Instance::try_from(r).unwrap_err(), DatabaseError::InvalidId("nope".to_string()));
    let mut r = row();
    r.loader = "forge".to_string();
    assert_eq!(Instance::try_from(r).unwrap_err(), DatabaseError::InvalidLoader("forge".to_string()));
    let mut r = row();
    r.last_played_at = Some("yesterday".to_string());
    assert_eq!(Instance::try_from(r).unwrap_err(), DatabaseError::InvalidTimestamp("yesterday".to_string()));
    let mut r = row();
    r.updated_at = "later".to_string();
    assert_eq!(Instance::try_from(r).unwrap_err(), DatabaseError::InvalidTimestamp("later".to_string()));
    assert!(parse_timestamp("2024-02-30T00:00:00Z").is_err());
}

#[test]
fn update_only_changes_given_fields() {
    let i = Instance::try_from(row()).unwrap();
    let unchanged = i.clone().with_update(InstanceUpdate::default());
    assert_eq!(unchanged.name, i.name);
    assert_eq!(unchanged.group_name, i.group_name);
    let u = InstanceUpdate { favorite: Some(false), memory_max_mb: Some(8192), icon: Some("grass".to_string()), ..InstanceUpdate::default() };
    let updated = i.clone().with_update(u.clone());
    assert!(!updated.favorite);
    assert_eq!(updated.memory_max_mb, 8192);
    assert_eq!(updated.icon.as_deref(), Some("grass"));
    assert_eq!(updated.name, "Survival World");
    assert_eq!(updated.loader_version, Some("0.16.9".to_string()));
    let twice = updated.clone().with_update(u);
    assert_eq!(twice.memory_max_mb, updated.memory_max_mb);
    assert_eq!(twice.icon, updated.icon);
}

#[test]
fn sorts_and_sessions() {
    assert_eq!(
        InstanceSort::RecentlyPlayed.order_by_clause(),
        "ORDER BY last_played_at IS NULL, last_played_at DESC, created_at DESC"
    );
    assert_eq!(InstanceSort::NameDescending.order_by_clause(), "ORDER BY name COLLATE NOCASE DESC");
    assert_eq!(
        InstanceSort::FavoritesFirst.list_query(),
        "SELECT * FROM instances ORDER BY favorite DESC, name COLLATE NOCASE ASC"
    );
    assert_eq!(InstanceSort::default(), InstanceSort::RecentlyPlayed);
    assert_eq!(session_credit(120), 120);
    assert_eq!(session_credit(-5), 0);
}

#[test]
fn database_error_messages() {
    let id = Uuid::parse_str("67e55044-10b1-426f-9247-bb680e5fe0c8").unwrap();
    assert_eq!(
        DatabaseError::InstanceNotFound(id).message(),
        "instance 67e55044-10b1-426f-9247-bb680e5fe0c8 was not found"
    );
    assert_eq!(DatabaseError::InvalidId("x".to_string()).message(), "stored id 'x' is not a valid UUID");
    assert_eq!(
        DatabaseError::InvalidTimestamp("t".to_string()).message(),
        "stored timestamp 't' could not be parsed"
    );
    assert_eq!(DatabaseError::Query("q".to_string()).message(), "database query failed");
}

#[test]
fn sessions_accumulate_play_time() {
    let mut r = row();
    r.total_playtime_seconds = 0;
    r.last_played_at = None;
    let start = Instance::try_from(r).unwrap();
    let t1 = parse_timestamp("2024-02-01T10:00:00Z").unwrap();
    let t2 = parse_timestamp("2024-02-01T11:00:00Z").unwrap();
    let once = with_session(start, 120, t1).unwrap();
    let twice = with_session(once, 45, t2).unwrap();
    assert_eq!(twice.total_playtime_seconds, 165);
    assert_eq!(twice.last_played_at, Some(t2));
    assert_eq!(twice.updated_at, t2);
    let negative = with_session(twice, -30, t1).unwrap();
    assert_eq!(negative.total_playtime_seconds, 165);
}

#[test]
fn session_that_overflows_the_total_is_refused() {
    let mut r = row();
    r.total_playtime_seconds = i64::MAX - 10;
    let i = Instance::try_from(r).unwrap();
    let t = parse_timestamp("2024-02-01T10:00:00Z").unwrap();
    assert!(with_session(i.clone(), 11, t).is_none());
    assert_eq!(with_session(i, 10, t).unwrap().total_playtime_seconds, i64::MAX);
}
