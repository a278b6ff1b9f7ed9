use launcher::assets::{AssetIndex, AssetObject, NamedAsset};
use launcher::launch::{launch_command_line, launch_download_tasks};
use launcher::libraries::resolve_libraries;
use launcher::version_detail::{Library, LoggingClientConfig, LoggingConfig, LoggingFile};
use launcher::error::MinecraftError;
use launcher::ids::Uuid;
use launcher::launch::{
    build_game_arguments, build_jvm_arguments, build_placeholders, fullscreen_options, join_classpath,
    launch_features, lines_of, loader_version_for, offline_uuid_for_username, runtime_component,
    substitute_one, system_java_acceptable, AccountType, GameAccount, LaunchRequest, Loader,
    LoggingArgument,
};
use launcher::os_match::{FeatureFlags, Platform};
use launcher::paths::LauncherPaths;
use launcher::version_detail::{
    Arguments, ArgumentEntry, AssetIndexRef, DownloadArtifact, Downloads, JavaVersionInfo, Placeholder,
    VersionDetail,
};

fn linux() -> Platform {
    Platform { os: "linux".to_string(), arch: "x86_64".to_string() }
}

fn request() -> LaunchRequest {
    LaunchRequest {
        instance_id: Uuid::from_bytes([1u8; 16]),
        minecraft_version: "1.12.2".to_string(),
        loader: Loader::Vanilla,
        loader_version: None,
        account: GameAccount::offline("Steve"),
        java_override: None,
        extra_java_args: vec!["-XX:+UseG1GC".to_string()],
        extra_game_args: vec!["--demo".to_string()],
        memory_min_mb: 512,
        memory_max_mb: 4096,
        window_width: 854,
        window_height: 480,
        fullscreen: false,
    }
}

fn legacy_version() -> VersionDetail {
    VersionDetail {
        id: "1.12.2".to_string(),
        version_type: "release".to_string(),
        main_class: "net.minecraft.client.main.Main".to_string(),
        asset_index: AssetIndexRef {
            id: "1.12".to_string(),
            sha1: "a".to_string(),
            size: 1,
            total_size: 1,
            url: "u".to_string(),
        },
        assets: "1.12".to_string(),
        downloads: Downloads { client: DownloadArtifact { sha1: "b".to_string(), size: 2, url: "c".to_string() } },
        libraries: vec![],
        java_version: Some(JavaVersionInfo { component: "jre-legacy".to_string(), major_version: 8 }),
        arguments: None,
        legacy_minecraft_arguments: Some("--username ${auth_player_name} --width ${resolution_width}".to_string()),
        logging: None,
    }
}

#[test]
fn offline_uuid_is_deterministic_for_the_same_name() {
    let a = offline_uuid_for_username("Notch");
    let b = offline_uuid_for_username("Notch");
    assert_eq!(a, b);
}

#[test]
fn offline_uuid_differs_between_names() {
    assert_ne!(offline_uuid_for_username("Notch"), offline_uuid_for_username("Jeb_"));
}

#[test]
fn offline_uuid_has_correct_version_and_variant_bits() {
    let uuid = offline_uuid_for_username("Steve");
    let bytes = uuid.as_bytes();
    assert_eq!(bytes[6] & 0xF0, 0x30, "version nibble should be 3");
    assert_eq!(bytes[8] & 0xC0, 0x80, "variant bits should be RFC 4122");
}

#[test]
fn substitute_one_replaces_template_token() {
    let placeholders = vec![Placeholder { key: "path".to_string(), value: "/tmp/log4j.xml".to_string() }];
    assert_eq!(
        substitute_one("-Dlog4j.configurationFile=${path}", &placeholders),
        "-Dlog4j.configurationFile=/tmp/log4j.xml"
    );
}

#[test]
fn offline_uuid_matches_the_vanilla_client() {
    assert_eq!(
        offline_uuid_for_username("Notch").to_hyphenated_string(),
        "b50ad385-829d-3141-a216-7e7d7539ba7f"
    );
}

#[test]
fn offline_account_has_dummy_token() {
    let a = GameAccount::offline("Alex");
    assert_eq!(a.username, "Alex");
    assert_eq!(a.access_token, "00000000000000000000000000000000");
    assert_eq!(a.account_type, AccountType::Offline);
    assert_eq!(a.uuid, offline_uuid_for_username("Alex"));
    assert_eq!(AccountType::Offline.as_user_type_arg(), "legacy");
    assert_eq!(AccountType::Microsoft.as_user_type_arg(), "msa");
}

#[test]
fn placeholder_table_has_every_launch_value() {
    let paths = LauncherPaths::new("/data".to_string());
    let req = request();
    let v = legacy_version();
    let table = build_placeholders(&req, &v, &paths, "a.jar:b.jar", "/n", "/data/cache/assets", "0.1.0");
    assert_eq!(table.len(), 20);
    let get = |k: &str| table.iter().find(|p| p.key == k).map(|p| p.value.clone()).unwrap();
    assert_eq!(get("auth_player_name"), "Steve");
    assert_eq!(get("version_name"), "1.12.2");
    assert_eq!(get("game_directory"), "/data/instances/01010101-0101-0101-0101-010101010101/minecraft");
    assert_eq!(get("assets_root"), "/data/cache/assets");
    assert_eq!(get("assets_index_name"), "1.12");
    assert_eq!(get("auth_uuid"), req.account.uuid.to_simple_string());
    assert_eq!(get("user_type"), "legacy");
    assert_eq!(get("user_properties"), "{}");
    assert_eq!(get("classpath"), "a.jar:b.jar");
    assert_eq!(get("resolution_width"), "854");
    assert_eq!(get("resolution_height"), "480");
    assert_eq!(get("clientid"), "01010101010101010101010101010101");
    assert_eq!(get("auth_xuid"), "0");
    assert_eq!(get("launcher_version"), "0.1.0");
}

#[test]
fn pre_1_13_command_lines() {
    let req = request();
    let v = legacy_version();
    let features = launch_features();
    assert!(features.is_active("has_custom_resolution"));
    let placeholders = vec![
        Placeholder { key: "auth_player_name".to_string(), value: "Steve".to_string() },
        Placeholder { key: "resolution_width".to_string(), value: "854".to_string() },
    ];
    let logging = Some(LoggingArgument {
        template: "-Dlog4j.configurationFile=${path}".to_string(),
        config_path: "/l/client.xml".to_string(),
    });
    let jvm = build_jvm_arguments(&req, &v, &features, &placeholders, &logging, "/n", "cp", &linux());
    assert_eq!(
        jvm,
        vec![
            "-XX:+UseG1GC",
            "-Xms512M",
            "-Xmx4096M",
            "-Dlog4j.configurationFile=/l/client.xml",
            "-Djava.library.path=/n",
            "-cp",
            "cp",
        ]
    );
    let game = build_game_arguments(&req, &v, &features, &placeholders, &linux());
    assert_eq!(game, vec!["--username", "Steve", "--width", "854", "--demo"]);
}

#[test]
fn modern_command_lines_use_argument_lists() {
    let req = request();
    let mut v = legacy_version();
    v.arguments = Some(Arguments {
        game: vec![ArgumentEntry::Plain("--version".to_string())],
        jvm: vec![ArgumentEntry::Plain("-cp".to_string()), ArgumentEntry::Plain("${classpath}".to_string())],
    });
    let placeholders = vec![Placeholder { key: "classpath".to_string(), value: "x.jar".to_string() }];
    let features = FeatureFlags::new();
    let jvm = build_jvm_arguments(&req, &v, &features, &placeholders, &None, "/n", "ignored", &linux());
    assert_eq!(jvm, vec!["-XX:+UseG1GC", "-Xms512M", "-Xmx4096M", "-cp", "x.jar"]);
    let game = build_game_arguments(&req, &v, &features, &placeholders, &linux());
    assert_eq!(game, vec!["--version", "--demo"]);
}

#[test]
fn classpath_joining_follows_platform_rules() {
    let entries = vec!["/a.jar".to_string(), "/b.jar".to_string()];
    assert_eq!(join_classpath(&entries, &linux()).unwrap(), "/a.jar:/b.jar");
    let win = Platform { os: "windows".to_string(), arch: "x86_64".to_string() };
    let entries = vec!["C:\\a.jar".to_string(), "C:\\x;y\\b.jar".to_string()];
    assert_eq!(join_classpath(&entries, &win).unwrap(), "C:\\a.jar;\"C:\\x;y\\b.jar\"");
    let bad = vec!["/a:b.jar".to_string()];
    assert!(matches!(join_classpath(&bad, &linux()), Err(MinecraftError::InvalidClasspathEntry(e)) if e == "/a:b.jar"));
    let bad = vec!["C:\\\"q\".jar".to_string()];
    assert!(join_classpath(&bad, &win).is_err());
    assert_eq!(join_classpath(&[], &linux()).unwrap(), "");
}

#[test]
fn fullscreen_preference_is_set_once() {
    assert_eq!(fullscreen_options(""), Some("fullscreen:true\n".to_string()));
    assert_eq!(
        fullscreen_options("lang:en_us\nfullscreen:false\r\nfov:0.5\n"),
        Some("lang:en_us\nfov:0.5\nfullscreen:true\n".to_string())
    );
    assert_eq!(fullscreen_options("a\n  fullscreen:true \nb"), None);
    assert_eq!(fullscreen_options("a\nb"), Some("a\nb\nfullscreen:true\n".to_string()));
    for existing in ["", "x:1\nfullscreen:false\n", "fullscreen:true"] {
        let once = fullscreen_options(existing).unwrap_or_else(|| existing.to_string());
        assert_eq!(fullscreen_options(&once), None, "a second pass writes nothing");
    }
}

#[test]
fn minecraft_error_messages() {
    assert_eq!(
        MinecraftError::VersionNotFound("9.9".to_string()).message(),
        "version '9.9' was not found in the version manifest"
    );
    assert_eq!(
        MinecraftError::NoJavaAvailable { component: "jre-legacy".to_string() }.message(),
        "no Java runtime is available for this instance (system Java not found and no managed runtime for component 'jre-legacy')"
    );
    assert_eq!(MinecraftError::MalformedLibraryName("x".to_string()).message(), "malformed library name 'x'");
    assert_eq!(
        MinecraftError::NativeExtraction("bad zip".to_string()).message(),
        "failed to extract native library archive: bad zip"
    );
    assert_eq!(
        MinecraftError::MissingLoaderVersion.message(),
        "this instance uses the Fabric loader but no loader version was specified"
    );
    assert_eq!(
        MinecraftError::MissingClientDownload("1.0".to_string()).message(),
        "this version's manifest has no '1.0' downloads.client entry — it may be a server-only or unsupported version"
    );
    assert_eq!(
        MinecraftError::InvalidClasspathEntry("a:b".to_string()).message(),
        "classpath entry 'a:b' cannot be joined into a path list"
    );
}

#[test]
fn lines_follow_str_lines() {
    for text in ["", "a", "a\n", "a\r\nb", "a\n\nb\n", "\n"] {
        let expected: Vec<String> = text.lines().map(String::from).collect();
        assert_eq!(lines_of(text), expected, "for {text:?}");
    }
}

#[test]
fn launch_decisions() {
    let mut req = request();
    assert_eq!(loader_version_for(&req).unwrap(), None);
    req.loader = Loader::Fabric;
    assert!(matches!(loader_version_for(&req), Err(MinecraftError::MissingLoaderVersion)));
    req.loader_version = Some("0.16.9".to_string());
    assert_eq!(loader_version_for(&req).unwrap(), Some("0.16.9".to_string()));

    let v = legacy_version();
    assert!(system_java_acceptable(&v, Some(8)));
    assert!(system_java_acceptable(&v, Some(21)));
    assert!(!system_java_acceptable(&v, Some(7)));
    assert!(!system_java_acceptable(&v, None));
    assert_eq!(runtime_component(&v), "jre-legacy");
    let mut v2 = legacy_version();
    v2.java_version = None;
    assert!(system_java_acceptable(&v2, None));
    assert_eq!(runtime_component(&v2), "jre-legacy");
    v2.java_version = Some(JavaVersionInfo { component: "java-runtime-gamma".to_string(), major_version: 21 });
    assert_eq!(runtime_component(&v2), "java-runtime-gamma");
}

#[test]
fn launch_downloads_come_in_order() {
    let mut v = legacy_version();
    v.libraries = vec![Library {
        name: "net.fabricmc:fabric-loader:0.16.9".to_string(),
        downloads: None,
        rules: vec![],
        natives: None,
        url: Some("https://maven.fabricmc.net/".to_string()),
        extract: None,
    }];
    v.logging = Some(LoggingConfig {
        client: LoggingClientConfig {
            argument: "-Dlog4j.configurationFile=${path}".to_string(),
            file: LoggingFile {
                id: "client-1.12.xml".to_string(),
                sha1: "ee".to_string(),
                size: 9,
                url: "https://x/client-1.12.xml".to_string(),
            },
        },
    });
    let paths = LauncherPaths::new("/data".to_string());
    let resolved = resolve_libraries(&v.libraries, &paths.libraries_dir(), &linux());
    let index = AssetIndex {
        objects: vec![NamedAsset { name: "a".to_string(), object: AssetObject { hash: "ab12".to_string(), size: 4 } }],
    };
    let plan = launch_download_tasks(&v, "1.12.2", &paths, &resolved, &index);
    let labels: Vec<&str> = plan.tasks.iter().map(|t| t.label.as_str()).collect();
    assert_eq!(
        labels,
        vec![
            "1.12.2 client",
            "library: net.fabricmc:fabric-loader:0.16.9",
            "asset: a",
            "logging config: client-1.12.xml",
        ]
    );
    assert_eq!(plan.tasks[0].destination, "/data/cache/versions/1.12.2/1.12.2.jar");
    assert_eq!(plan.tasks[0].url, "c");
    assert_eq!(plan.tasks[3].destination, "/data/cache/assets/log_configs/client-1.12.xml");
    let logging = plan.logging.unwrap();
    assert_eq!(logging.config_path, "/data/cache/assets/log_configs/client-1.12.xml");
    assert_eq!(logging.template, "-Dlog4j.configurationFile=${path}");
}

#[test]
fn full_command_line_puts_main_class_between_jvm_and_game_arguments() {
    let paths = LauncherPaths::new("/data".to_string());
    let req = request();
    let v = legacy_version();
    let resolved = resolve_libraries(&vec![], "/data/cache/libraries", &linux());
    let line = launch_command_line(&req, &v, &paths, &resolved, &None, "/n", "1.12.2", "0.1.0", &linux()).unwrap();
    assert_eq!(line.classpath, "/data/cache/versions/1.12.2/1.12.2.jar");
    assert_eq!(
        line.args,
        vec![
            "-XX:+UseG1GC",
            "-Xms512M",
            "-Xmx4096M",
            "-Djava.library.path=/n",
            "-cp",
            "/data/cache/versions/1.12.2/1.12.2.jar",
            "net.minecraft.client.main.Main",
            "--username",
            "Steve",
            "--width",
            "854",
            "--demo",
        ]
    );
    assert_eq!(line.placeholders.len(), 20);
}

#[test]
fn full_command_line_refuses_an_unlistable_classpath_entry() {
    let paths = LauncherPaths::new("/data".to_string());
    let req = request();
    let v = legacy_version();
    let resolved = resolve_libraries(&vec![], "/data/cache/libraries", &linux());
    let r = launch_command_line(&req, &v, &paths, &resolved, &None, "/n", "1:12", "0.1.0", &linux());
    assert!(matches!(r, Err(MinecraftError::InvalidClasspathEntry(_))));
}
