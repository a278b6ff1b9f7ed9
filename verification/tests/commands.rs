use launcher::commands::{
    check_launch_allowed,
    draft_from_request, event_channel_name, has_jar_extension, launch_request_for, manifest_cache_fresh,
    parse_instance_id, require_game_version, serve_cached_manifest, sort_for, sort_mods_by_name, split_args,
    stage_name, to_minecraft_loader, CreateInstanceRequest, InstanceSortRequest, ModFileInfo,
};
use launcher::database::{Instance, InstanceRow, InstanceSort, Loader, Timestamp};
use launcher::launch::{AccountType, LaunchStage};

fn request(name: &str, loader: &str) -> CreateInstanceRequest {
    CreateInstanceRequest {
        name: name.to_string(),
        loader: loader.to_string(),
        loader_version: None,
        minecraft_version: "1.21.11".to_string(),
        icon: None,
    }
}

fn instance() -> Instance {
    Instance::try_from(InstanceRow {
        id: "67e55044-10b1-426f-9247-bb680e5fe0c8".to_string(),
        name: "World".to_string(),
        loader: "vanilla".to_string(),
        loader_version: None,
        minecraft_version: "1.21.11".to_string(),
        icon: None,
        group_name: None,
        favorite: 0,
        java_path: Some("/usr/bin/java".to_string()),
        java_args: Some("  -Xss2M   -Dx=y ".to_string()),
        memory_min_mb: 512,
        memory_max_mb: 4096,
        window_width: 1280,
        window_height: 720,
        fullscreen: 1,
        game_args: None,
        last_played_at: None,
        total_playtime_seconds: 0,
        created_at: "2024-01-01T00:00:00Z".to_string(),
        updated_at: "2024-01-01T00:00:00Z".to_string(),
    })
    .unwrap()
}

fn ts(secs: i64, nanos: u32) -> Timestamp {
    Timestamp { secs, nanos }
}

#[test]
fn create_request_validation() {
    assert_eq!(draft_from_request(request("x", "forge")).unwrap_err(), "'forge' is not a recognized mod loader");
    assert_eq!(draft_from_request(request("   ", "vanilla")).unwrap_err(), "Instance name cannot be empty.");
    let d = draft_from_request(request("  My World ", "fabric")).unwrap();
    assert_eq!(d.name, "My World");
    assert_eq!(d.loader, Loader::Fabric);
    assert_eq!(d.minecraft_version, "1.21.11");
}

#[test]
fn ids_channels_and_sorts() {
    assert_eq!(parse_instance_id("bad").unwrap_err(), "'bad' is not a valid instance id.");
    let id = parse_instance_id("67e55044-10b1-426f-9247-bb680e5fe0c8").unwrap();
    assert_eq!(event_channel_name(id), "launch:67e55044-10b1-426f-9247-bb680e5fe0c8");
    assert_eq!(sort_for(None), InstanceSort::RecentlyPlayed);
    assert_eq!(sort_for(Some(InstanceSortRequest::NameAscending)), InstanceSort::NameAscending);
    assert_eq!(InstanceSort::from(InstanceSortRequest::FavoritesFirst), InstanceSort::FavoritesFirst);
    assert_eq!(stage_name(LaunchStage::ExtractingNatives), "extracting_natives");
    assert_eq!(stage_name(LaunchStage::ResolvingVersion), "resolving_version");
}

#[test]
fn split_args_and_loader_conversion() {
    assert_eq!(split_args(&Some(" -a  -b\t-c\n".to_string())), vec!["-a", "-b", "-c"]);
    assert!(split_args(&None).is_empty());
    assert_eq!(to_minecraft_loader(Loader::Fabric), launcher::launch::Loader::Fabric);
    assert_eq!(to_minecraft_loader(Loader::Vanilla), launcher::launch::Loader::Vanilla);
}

#[test]
fn launch_request_from_instance() {
    let i = instance();
    assert_eq!(launch_request_for(&i, "Steve", true).unwrap_err(), "This instance is already running.");
    assert_eq!(
        launch_request_for(&i, "  ", false).unwrap_err(),
        "Enter a username before launching in offline mode."
    );
    let r = launch_request_for(&i, " Steve ", false).unwrap();
    assert_eq!(r.account.username, "Steve");
    assert_eq!(r.account.account_type, AccountType::Offline);
    assert_eq!(r.extra_java_args, vec!["-Xss2M", "-Dx=y"]);
    assert!(r.extra_game_args.is_empty());
    assert_eq!(r.java_override.as_deref(), Some("/usr/bin/java"));
    assert_eq!(r.window_width, 1280);
    assert!(r.fullscreen);
    assert_eq!(r.instance_id, i.id);
}

#[test]
fn manifest_cache_ttl_is_one_hour() {
    assert!(manifest_cache_fresh(ts(1000, 0), ts(1000 + 3599, 999_999_999)));
    assert!(!manifest_cache_fresh(ts(1000, 0), ts(1000 + 3600, 0)));
    assert!(manifest_cache_fresh(ts(5000, 0), ts(1000, 0)));
    assert!(serve_cached_manifest(None, Some(ts(0, 0)), ts(10, 0)));
    assert!(!serve_cached_manifest(Some(true), Some(ts(0, 0)), ts(10, 0)));
    assert!(serve_cached_manifest(Some(false), Some(ts(0, 0)), ts(10, 0)));
    assert!(!serve_cached_manifest(None, None, ts(10, 0)));
    assert!(require_game_version(" ").is_err());
    assert_eq!(
        require_game_version("").unwrap_err(),
        "A Minecraft version is required to list Fabric loader builds."
    );
    assert!(require_game_version("1.21.11").is_ok());
}

#[test]
fn jar_extension_follows_path_extension() {
    assert!(has_jar_extension("sodium.jar"));
    assert!(has_jar_extension("Sodium.JAR"));
    assert!(has_jar_extension("a.b.jar"));
    assert!(!has_jar_extension(".jar"));
    assert!(!has_jar_extension("jar"));
    assert!(!has_jar_extension("mod.jar.disabled"));
    assert!(!has_jar_extension("mod."));
}

#[test]
fn mods_are_listed_by_lower_case_name() {
    let m = |n: &str| ModFileInfo { file_name: n.to_string(), size_bytes: 1, modified_at: None };
    let sorted = sort_mods_by_name(vec![m("b.jar"), m("A.jar"), m("c.jar"), m("a.jar")]);
    let names: Vec<&str> = sorted.iter().map(|x| x.file_name.as_str()).collect();
    assert_eq!(names, vec!["A.jar", "a.jar", "b.jar", "c.jar"]);
    assert!(sort_mods_by_name(vec![]).is_empty());
    let sorted = sort_mods_by_name(vec![m("B.jar"), m("a.jar")]);
    assert_eq!(sorted[0].file_name, "a.jar");
    assert_eq!(sorted[1].file_name, "B.jar");
}

#[test]
fn mods_with_equal_lower_case_names_keep_their_order() {
    let m = |n: &str, size: u64| ModFileInfo { file_name: n.to_string(), size_bytes: size, modified_at: None };
    let sorted = sort_mods_by_name(vec![m("z.jar", 1), m("a.jar", 2), m("A.jar", 3), m("a.jar", 4)]);
    let order: Vec<(&str, u64)> = sorted.iter().map(|x| (x.file_name.as_str(), x.size_bytes)).collect();
    assert_eq!(order, vec![("a.jar", 2), ("A.jar", 3), ("a.jar", 4), ("z.jar", 1)]);
}

#[test]
fn launch_checks_come_before_the_instance_lookup() {
    assert_eq!(check_launch_allowed("Steve", true), Err("This instance is already running.".to_string()));
    assert_eq!(
        check_launch_allowed("   ", false),
        Err("Enter a username before launching in offline mode.".to_string())
    );
    assert_eq!(check_launch_allowed(" Steve ", false), Ok(()));
}
