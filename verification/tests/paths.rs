use launcher::ids::Uuid;
use launcher::paths::{join_path, sanitize_path_segment, LauncherPaths};

fn id(b: u8) -> Uuid {
    Uuid::from_bytes([b; 16])
}

#[test]
fn instance_paths_are_isolated_per_instance() {
    let paths = LauncherPaths::new("/data".to_string());
    let a = id(0xa1);
    let b = id(0xb2);
    assert_ne!(paths.instance_game_dir(a), paths.instance_game_dir(b));
}

#[test]
fn cache_paths_do_not_depend_on_instance_id() {
    let paths = LauncherPaths::new("/data".to_string());
    assert_eq!(paths.libraries_dir(), "/data/cache/libraries");
    assert_eq!(paths.assets_dir(), "/data/cache/assets");
}

#[test]
fn fabric_profile_path_is_keyed_by_both_game_and_loader_version() {
    let paths = LauncherPaths::new("/data".to_string());
    let a = paths.fabric_profile_path("1.21.11", "0.16.9");
    let b = paths.fabric_profile_path("1.21.11", "0.16.10");
    let c = paths.fabric_profile_path("1.20.6", "0.16.9");
    assert_ne!(a, b, "different loader versions must not collide");
    assert_ne!(a, c, "different game versions must not collide");
    assert_eq!(a, "/data/cache/fabric/1.21.11/0.16.9.json");
}

#[test]
fn sanitize_path_segment_strips_filesystem_unsafe_characters() {
    assert_eq!(sanitize_path_segment("1.21.11"), "1.21.11");
    assert_eq!(sanitize_path_segment("1.14 Pre-Release 5"), "1.14 Pre-Release 5");
    assert_eq!(sanitize_path_segment("weird:name*here"), "weird_name_here");
}

#[test]
fn every_launcher_path() {
    let p = LauncherPaths::new("/data".to_string());
    let i = id(0x01);
    assert_eq!(p.root(), "/data");
    assert_eq!(p.database_file(), "/data/launcher.db");
    assert_eq!(p.asset_index_path("21"), "/data/cache/assets/indexes/21.json");
    assert_eq!(p.java_runtimes_dir(), "/data/cache/java");
    assert_eq!(p.version_json_path("1.21.11"), "/data/cache/versions/1.21.11/1.21.11.json");
    assert_eq!(p.version_jar_path("1.21.11"), "/data/cache/versions/1.21.11/1.21.11.jar");
    assert_eq!(p.instances_dir(), "/data/instances");
    assert_eq!(p.instance_dir(i), "/data/instances/01010101-0101-0101-0101-010101010101");
    assert_eq!(p.instance_game_dir(i), "/data/instances/01010101-0101-0101-0101-010101010101/minecraft");
    assert_eq!(
        p.instance_natives_dir(i, "1.21.11"),
        "/data/instances/01010101-0101-0101-0101-010101010101/natives/1.21.11"
    );
    assert_eq!(
        p.instance_logs_dir(i),
        "/data/instances/01010101-0101-0101-0101-010101010101/minecraft/logs"
    );
}

#[test]
fn join_follows_unix_path_join() {
    assert_eq!(join_path("/a", "b"), "/a/b");
    assert_eq!(join_path("/a/", "b"), "/a/b");
    assert_eq!(join_path("", "b"), "b");
    assert_eq!(join_path("/a", "/b"), "/b");
    assert_eq!(join_path("/a", ""), "/a/");
    let unsafe_name = sanitize_path_segment("a/b\\c<d>e|f?g\"h");
    assert_eq!(unsafe_name, "a_b_c_d_e_f_g_h");
    assert_eq!(sanitize_path_segment(&unsafe_name), unsafe_name);
}
