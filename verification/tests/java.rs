use launcher::error::MinecraftError;
use launcher::java::{
    first_output_line, install_sentinel_path, installed_runtime, java_binary_name, java_home_candidate,
    java_major_from_captures, managed_java_executable_path, managed_runtime_root, parse_java_major_version,
    parse_u32, plan_runtime_install, runtime_link, runtime_platform_key, select_runtime_manifest_url,
    windowed_java_path, ComponentRuntimes, JavaManifestRef, JavaRuntimeEntry, JavaRuntimeManifest,
    PlatformRuntimes, RuntimeFile, RuntimeFileDownloadRaw,
};
use launcher::os_match::Platform;

fn platform(os: &str, arch: &str) -> Platform {
    Platform { os: os.to_string(), arch: arch.to_string() }
}

#[test]
fn parses_modern_version_scheme() {
    let output = "openjdk version \"21.0.3\" 2024-04-16\nOpenJDK Runtime Environment\n";
    assert_eq!(parse_java_major_version(output), Some(21));
}

#[test]
fn parses_legacy_1_dot_8_scheme() {
    let output = "java version \"1.8.0_401\"\nJava(TM) SE Runtime Environment\n";
    assert_eq!(parse_java_major_version(output), Some(8));
}

#[test]
fn unparseable_output_returns_none() {
    assert_eq!(parse_java_major_version("not java output at all"), None);
}

#[test]
fn runtime_platform_key_covers_common_targets() {
    for os in ["linux", "windows", "macos"] {
        for arch in ["x86_64", "aarch64"] {
            let key = runtime_platform_key(&platform(os, arch));
            if !(os == "linux" && arch == "aarch64") {
                assert!(key.is_some(), "should resolve a runtime key for common 64-bit targets");
            }
        }
    }
}

#[test]
fn runtime_platform_key_table() {
    assert_eq!(runtime_platform_key(&platform("windows", "x86_64")), Some("windows-x64"));
    assert_eq!(runtime_platform_key(&platform("windows", "x86")), Some("windows-x86"));
    assert_eq!(runtime_platform_key(&platform("windows", "aarch64")), Some("windows-arm64"));
    assert_eq!(runtime_platform_key(&platform("macos", "aarch64")), Some("mac-os-arm64"));
    assert_eq!(runtime_platform_key(&platform("macos", "x86_64")), Some("mac-os"));
    assert_eq!(runtime_platform_key(&platform("linux", "x86")), Some("linux-i386"));
    assert_eq!(runtime_platform_key(&platform("linux", "x86_64")), Some("linux"));
    assert_eq!(runtime_platform_key(&platform("linux", "arm")), None);
    assert_eq!(runtime_platform_key(&platform("freebsd", "x86_64")), None);
}

#[test]
fn major_version_from_groups() {
    let g = |a: Option<&str>, b: Option<&str>| vec![Some("m".to_string()), a.map(String::from), b.map(String::from)];
    assert_eq!(java_major_from_captures(&g(Some("17"), None)), Some(17));
    assert_eq!(java_major_from_captures(&g(Some("1"), Some("8"))), Some(8));
    assert_eq!(java_major_from_captures(&g(Some("1"), None)), None);
    assert_eq!(java_major_from_captures(&g(None, None)), None);
    assert_eq!(java_major_from_captures(&g(Some("99999999999"), None)), None);
    assert_eq!(java_major_from_captures(&[Some("m".to_string())]), None);
}

#[test]
fn parse_u32_follows_std() {
    assert_eq!(parse_u32("0"), Some(0));
    assert_eq!(parse_u32("+42"), Some(42));
    assert_eq!(parse_u32("4294967295"), Some(4294967295));
    assert_eq!(parse_u32("4294967296"), None);
    assert_eq!(parse_u32(""), None);
    assert_eq!(parse_u32("+"), None);
    assert_eq!(parse_u32("-1"), None);
    assert_eq!(parse_u32("1a"), None);
    assert_eq!(parse_u32("\u{0663}"), None);
    for s in ["7", "+7", "-7", "", "12345678901", "0042"] {
        assert_eq!(parse_u32(s), s.parse::<u32>().ok());
    }
}

#[test]
fn first_output_line_is_trimmed_and_nonblank() {
    assert_eq!(first_output_line("  /usr/bin/java \r\n/other\n"), Some("/usr/bin/java".to_string()));
    assert_eq!(first_output_line(""), None);
    assert_eq!(first_output_line("   \nsecond"), None);
    assert_eq!(first_output_line("C:\\java.exe"), Some("C:\\java.exe".to_string()));
}

#[test]
fn executable_names_and_paths() {
    assert_eq!(java_binary_name(&platform("windows", "x86_64")), "java.exe");
    assert_eq!(java_binary_name(&platform("linux", "x86_64")), "java");
    assert_eq!(java_home_candidate("/opt/jdk", &platform("linux", "x86_64")), "/opt/jdk/bin/java");
    assert_eq!(managed_java_executable_path("/r", &platform("linux", "x86_64"), true), "/r/bin/java");
    assert_eq!(managed_java_executable_path("/r", &platform("windows", "x86_64"), true), "/r/bin/javaw.exe");
    assert_eq!(managed_java_executable_path("/r", &platform("windows", "x86_64"), false), "/r/bin/java.exe");
    assert_eq!(windowed_java_path("/r"), "/r/bin/javaw.exe");
    assert_eq!(
        managed_runtime_root("/data/cache/java", "java-runtime-gamma", "linux"),
        "/data/cache/java/java-runtime-gamma/linux/java-runtime-gamma"
    );
    assert_eq!(install_sentinel_path("/j"), "/j/.install-complete");
}

fn manifest() -> JavaRuntimeManifest {
    JavaRuntimeManifest {
        platforms: vec![
            PlatformRuntimes {
                platform: "linux".to_string(),
                components: vec![
                    ComponentRuntimes {
                        component: "java-runtime-gamma".to_string(),
                        builds: vec![
                            JavaRuntimeEntry { manifest: JavaManifestRef { url: "https://x/new.json".to_string() } },
                            JavaRuntimeEntry { manifest: JavaManifestRef { url: "https://x/old.json".to_string() } },
                        ],
                    },
                    ComponentRuntimes { component: "jre-legacy".to_string(), builds: vec![] },
                ],
            },
            PlatformRuntimes { platform: "mac-os".to_string(), components: vec![] },
        ],
    }
}

#[test]
fn runtime_selection_picks_newest_build_or_reports_component() {
    let m = manifest();
    assert_eq!(
        select_runtime_manifest_url(&m, "linux", "java-runtime-gamma").unwrap(),
        "https://x/new.json"
    );
    match select_runtime_manifest_url(&m, "linux", "jre-legacy") {
        Err(MinecraftError::NoJavaAvailable { component }) => assert_eq!(component, "jre-legacy"),
        other => panic!("unexpected {other:?}"),
    }
    assert!(matches!(
        select_runtime_manifest_url(&m, "mac-os", "java-runtime-gamma"),
        Err(MinecraftError::NoJavaAvailable { .. })
    ));
    assert!(matches!(
        select_runtime_manifest_url(&m, "windows-x64", "java-runtime-gamma"),
        Err(MinecraftError::NoJavaAvailable { .. })
    ));
}

#[test]
fn runtime_install_plan_sorts_entries_by_kind() {
    let files = vec![
        RuntimeFile { path: "bin".into(), entry_type: "directory".into(), downloads: None, executable: false, target: None },
        RuntimeFile {
            path: "bin/java".into(),
            entry_type: "file".into(),
            downloads: Some(RuntimeFileDownloadRaw { sha1: "aa".into(), size: 10, url: "https://x/java".into() }),
            executable: true,
            target: None,
        },
        RuntimeFile {
            path: "lib/a.so".into(),
            entry_type: "file".into(),
            downloads: Some(RuntimeFileDownloadRaw { sha1: "bb".into(), size: 20, url: "https://x/a".into() }),
            executable: false,
            target: None,
        },
        RuntimeFile { path: "lib/none".into(), entry_type: "file".into(), downloads: None, executable: true, target: None },
        RuntimeFile { path: "legal".into(), entry_type: "link".into(), downloads: None, executable: false, target: Some("../legal".into()) },
        RuntimeFile { path: "odd".into(), entry_type: "link".into(), downloads: None, executable: false, target: None },
        RuntimeFile { path: "x".into(), entry_type: "other".into(), downloads: None, executable: false, target: None },
    ];
    let plan = plan_runtime_install("/j", &files);
    assert_eq!(plan.directories, vec!["/j/bin".to_string()]);
    assert_eq!(plan.tasks.len(), 2);
    assert_eq!(plan.tasks[0].url, "https://x/java");
    assert_eq!(plan.tasks[0].destination, "/j/bin/java");
    assert_eq!(plan.tasks[0].label, "java runtime: bin/java");
    assert_eq!(plan.tasks[0].sha1.as_deref(), Some("aa"));
    assert_eq!(plan.tasks[0].expected_size, Some(10));
    assert_eq!(plan.executables, vec!["bin/java".to_string()]);
    assert_eq!(plan.links.len(), 1);
    assert_eq!(plan.links[0].path, "/j/legal");
    assert_eq!(plan.links[0].target, "../legal");
}

#[test]
fn runtime_link_needs_a_target() {
    assert!(runtime_link("/j", "a", None).is_none());
    let l = runtime_link("/j", "a/b", Some("c")).unwrap();
    assert_eq!(l.path, "/j/a/b");
    assert_eq!(l.target, "c");
}

#[test]
fn install_outcome_depends_on_executable() {
    assert_eq!(installed_runtime("/j/bin/java".to_string(), true, "c").unwrap(), "/j/bin/java");
    assert!(matches!(
        installed_runtime("/j/bin/java".to_string(), false, "c"),
        Err(MinecraftError::NoJavaAvailable { component }) if component == "c"
    ));
}

#[test]
fn runtime_counts_as_installed_only_with_executable_and_marker() {
    assert!(launcher::java::runtime_is_installed(true, true));
    assert!(!launcher::java::runtime_is_installed(true, false));
    assert!(!launcher::java::runtime_is_installed(false, true));
}
