use launcher::error::MinecraftError;
use launcher::libraries::{
    arch_bits, dedupe_libraries_preferring_last, maven_coordinate_to_path, maven_group_artifact_key,
    resolve_libraries, resolve_main_artifact, resolve_native_artifact, should_extract_entry,
    native_entry_data, native_entry_target, native_jar_entry_count, native_target_for,
};
use std::io::Write;
use launcher::os_match::{OsRule, Platform, Rule, RuleAction};
use launcher::version_detail::{
    ClassifierArtifact, ExtractRules, Library, LibraryArtifact, LibraryDownloads, NativesEntry,
};

fn lib(name: &str) -> Library {
    Library {
        name: name.to_string(),
        downloads: None,
        rules: vec![],
        natives: None,
        url: None,
        extract: None,
    }
}

fn artifact(path: &str) -> LibraryArtifact {
    LibraryArtifact {
        path: path.to_string(),
        sha1: "s".to_string(),
        size: 7,
        url: format!("https://libraries.minecraft.net/{path}"),
    }
}

#[test]
fn maven_coordinate_without_classifier() {
    let path = maven_coordinate_to_path("net.fabricmc:fabric-loader:0.16.9").unwrap();
    assert_eq!(path, "net/fabricmc/fabric-loader/0.16.9/fabric-loader-0.16.9.jar");
}

#[test]
fn maven_coordinate_with_classifier() {
    let path = maven_coordinate_to_path("org.lwjgl:lwjgl:3.3.3:natives-linux").unwrap();
    assert_eq!(path, "org/lwjgl/lwjgl/3.3.3/lwjgl-3.3.3-natives-linux.jar");
}

#[test]
fn malformed_coordinate_is_rejected() {
    assert!(maven_coordinate_to_path("not-a-valid-coordinate").is_err());
}

#[test]
fn arch_bits_is_32_or_64() {
    for arch in ["x86_64", "aarch64", "x86", "arm"] {
        assert!(arch_bits(arch) == "32" || arch_bits(arch) == "64");
    }
    assert_eq!(arch_bits("x86_64"), "64");
    assert_eq!(arch_bits("x86"), "32");
}

#[test]
fn maven_group_artifact_key_ignores_version_but_keeps_group_and_artifact_distinct() {
    assert_eq!(
        maven_group_artifact_key("org.ow2.asm:asm:9.6"),
        maven_group_artifact_key("org.ow2.asm:asm:9.7"),
        "same group:artifact at different versions should collapse to one key",
    );
    assert_ne!(
        maven_group_artifact_key("org.ow2.asm:asm:9.6"),
        maven_group_artifact_key("org.ow2.asm:asm-commons:9.6"),
        "different artifacts must never share a key",
    );
}

#[test]
fn maven_group_artifact_key_keeps_different_platform_classifiers_distinct() {
    let windows = maven_group_artifact_key("org.lwjgl:lwjgl-glfw:3.3.3:natives-windows");
    let linux = maven_group_artifact_key("org.lwjgl:lwjgl-glfw:3.3.3:natives-linux");
    let macos = maven_group_artifact_key("org.lwjgl:lwjgl-glfw:3.3.3:natives-macos");
    let macos_arm64 = maven_group_artifact_key("org.lwjgl:lwjgl-glfw:3.3.3:natives-macos-arm64");
    assert_ne!(windows, linux);
    assert_ne!(windows, macos);
    assert_ne!(linux, macos);
    assert_ne!(macos, macos_arm64, "arm64 variant must be distinct from the base macos one");
}

#[test]
fn maven_group_artifact_key_still_dedupes_same_classifier_across_versions() {
    assert_eq!(
        maven_group_artifact_key("org.lwjgl:lwjgl-glfw:3.3.3:natives-windows"),
        maven_group_artifact_key("org.lwjgl:lwjgl-glfw:3.3.4:natives-windows"),
    );
}

#[test]
fn dedupe_keeps_last_occurrence_of_duplicate_coordinates() {
    let libraries = vec![
        lib("org.ow2.asm:asm:9.1"),
        lib("net.fabricmc:fabric-loader:0.16.9"),
        lib("org.ow2.asm:asm:9.7"),
    ];
    let result = dedupe_libraries_preferring_last(libraries);
    assert_eq!(result.len(), 2, "the two asm entries should collapse into one");
    let asm_lib = result.iter().find(|l| l.name.starts_with("org.ow2.asm:asm:")).unwrap();
    assert_eq!(asm_lib.name, "org.ow2.asm:asm:9.7", "the later (Fabric) version should win");
}

#[test]
fn dedupe_preserves_every_platform_variant_of_a_native_library() {
    let libraries = vec![
        lib("org.lwjgl:lwjgl-glfw:3.3.3:natives-windows"),
        lib("org.lwjgl:lwjgl-glfw:3.3.3:natives-windows-x86"),
        lib("org.lwjgl:lwjgl-glfw:3.3.3:natives-windows-arm64"),
        lib("org.lwjgl:lwjgl-glfw:3.3.3:natives-linux"),
        lib("org.lwjgl:lwjgl-glfw:3.3.3:natives-macos"),
        lib("org.lwjgl:lwjgl-glfw:3.3.3:natives-macos-arm64"),
    ];
    let result = dedupe_libraries_preferring_last(libraries.clone());
    assert_eq!(
        result.len(),
        libraries.len(),
        "every platform variant must survive — none of these are duplicates of each other"
    );
    for input in &libraries {
        assert!(result.iter().any(|l| l.name == input.name), "{} was dropped by dedup", input.name);
    }
}

#[test]
fn dedupe_preserves_first_seen_order_for_survivors() {
    let libraries = vec![lib("a:a:1"), lib("b:b:1"), lib("a:a:2")];
    let result = dedupe_libraries_preferring_last(libraries);
    assert_eq!(result[0].name, "a:a:2");
    assert_eq!(result[1].name, "b:b:1");
}

#[test]
fn dedupe_with_no_duplicates_is_a_no_op() {
    let libraries = vec![lib("a:a:1"), lib("b:b:1"), lib("c:c:1")];
    let result = dedupe_libraries_preferring_last(libraries);
    assert_eq!(result.len(), 3);
}

#[test]
fn dedupe_twice_changes_nothing_more() {
    let libraries = vec![lib("a:a:1"), lib("b:b:1"), lib("a:a:2"), lib("b:b:3"), lib("c:c:1")];
    let once = dedupe_libraries_preferring_last(libraries);
    let names_once: Vec<String> = once.iter().map(|l| l.name.clone()).collect();
    let twice = dedupe_libraries_preferring_last(once);
    let names_twice: Vec<String> = twice.iter().map(|l| l.name.clone()).collect();
    assert_eq!(names_once, vec!["a:a:2", "b:b:3", "c:c:1"]);
    assert_eq!(names_once, names_twice);
}

#[test]
fn malformed_coordinate_error_names_the_coordinate() {
    match maven_coordinate_to_path("a:b") {
        Err(MinecraftError::MalformedLibraryName(s)) => assert_eq!(s, "a:b"),
        other => panic!("unexpected {other:?}"),
    }
}

#[test]
fn main_artifact_from_downloads_or_maven_repository() {
    let mut with_download = lib("org.lwjgl:lwjgl:3.3.3");
    with_download.downloads = Some(LibraryDownloads {
        artifact: Some(artifact("org/lwjgl/lwjgl/3.3.3/lwjgl-3.3.3.jar")),
        classifiers: vec![],
    });
    let (dest, task) = resolve_main_artifact(&with_download, "/libs").unwrap();
    assert_eq!(dest, "/libs/org/lwjgl/lwjgl/3.3.3/lwjgl-3.3.3.jar");
    assert_eq!(task.url, "https://libraries.minecraft.net/org/lwjgl/lwjgl/3.3.3/lwjgl-3.3.3.jar");
    assert_eq!(task.sha1.as_deref(), Some("s"));

    let mut maven = lib("net.fabricmc:fabric-loader:0.16.9");
    maven.url = Some("https://maven.fabricmc.net".to_string());
    let (dest, task) = resolve_main_artifact(&maven, "/libs").unwrap();
    assert_eq!(dest, "/libs/net/fabricmc/fabric-loader/0.16.9/fabric-loader-0.16.9.jar");
    assert_eq!(
        task.url,
        "https://maven.fabricmc.net/net/fabricmc/fabric-loader/0.16.9/fabric-loader-0.16.9.jar"
    );
}

#[test]
fn natives_resolve_for_the_platform_and_rules_filter() {
    let mut l = lib("org.lwjgl.lwjgl:lwjgl-platform:2.9.4");
    l.natives = Some(vec![
        NativesEntry { os: "linux".to_string(), classifier: "natives-linux".to_string() },
        NativesEntry { os: "windows".to_string(), classifier: "natives-windows-${arch}".to_string() },
    ]);
    l.downloads = Some(LibraryDownloads {
        artifact: Some(artifact("p/lwjgl-platform-2.9.4.jar")),
        classifiers: vec![
            ClassifierArtifact { classifier: "natives-linux".to_string(), artifact: artifact("p/linux.jar") },
            ClassifierArtifact { classifier: "natives-windows-64".to_string(), artifact: artifact("p/win64.jar") },
        ],
    });
    l.extract = Some(ExtractRules { exclude: vec!["META-INF/".to_string()] });
    let linux = Platform { os: "linux".to_string(), arch: "x86_64".to_string() };
    let win = Platform { os: "windows".to_string(), arch: "x86_64".to_string() };
    let mac = Platform { os: "macos".to_string(), arch: "aarch64".to_string() };
    let n = resolve_native_artifact(&l, "/libs", &linux).unwrap();
    assert_eq!(n.destination, "/libs/p/linux.jar");
    assert_eq!(n.exclude, vec!["META-INF/".to_string()]);
    assert_eq!(n.task.label, "natives: org.lwjgl.lwjgl:lwjgl-platform:2.9.4");
    assert_eq!(resolve_native_artifact(&l, "/libs", &win).unwrap().destination, "/libs/p/win64.jar");
    assert!(resolve_native_artifact(&l, "/libs", &mac).is_none());

    let mut only_windows = lib("x:y:1");
    only_windows.downloads = Some(LibraryDownloads { artifact: Some(artifact("x/y.jar")), classifiers: vec![] });
    only_windows.rules = vec![Rule {
        action: RuleAction::Allow,
        os: Some(OsRule { name: Some("windows".to_string()), version: None, arch: None }),
        features: None,
    }];
    let resolved = resolve_libraries(&[l.clone(), only_windows], "/libs", &linux);
    assert_eq!(resolved.classpath_entries, vec!["/libs/p/lwjgl-platform-2.9.4.jar".to_string()]);
    assert_eq!(resolved.classpath_tasks.len(), 1);
    assert_eq!(resolved.native_jars.len(), 1);
}

#[test]
fn native_entries_are_filtered_by_prefix() {
    let exclude = vec!["META-INF/".to_string()];
    assert!(should_extract_entry("liblwjgl.so", false, &exclude));
    assert!(!should_extract_entry("META-INF/MANIFEST.MF", false, &exclude));
    assert!(!should_extract_entry("dir/", true, &exclude));
    assert!(should_extract_entry("META-INF", false, &exclude));
}

fn natives_jar() -> Vec<u8> {
    let mut w = zip::ZipWriter::new(std::io::Cursor::new(Vec::new()));
    let opts = zip::write::SimpleFileOptions::default();
    w.add_directory("META-INF/", opts).unwrap();
    w.start_file("META-INF/MANIFEST.MF", opts).unwrap();
    w.write_all(b"Manifest-Version: 1.0\n").unwrap();
    w.start_file("liblwjgl.so", opts).unwrap();
    w.write_all(b"native bytes").unwrap();
    w.start_file("linux/x64/libglfw.so", opts).unwrap();
    w.write_all(b"glfw").unwrap();
    w.finish().unwrap().into_inner()
}

#[test]
fn natives_jar_entries_are_read_one_by_one() {
    let jar = natives_jar();
    let exclude = vec!["META-INF/".to_string()];
    let count = native_jar_entry_count("n.jar", &jar).unwrap();
    assert_eq!(count, 4);
    let targets: Vec<Option<String>> =
        (0..count).map(|i| native_entry_target(&jar, i, "/n", &exclude).unwrap()).collect();
    assert_eq!(
        targets,
        vec![None, None, Some("/n/liblwjgl.so".to_string()), Some("/n/linux/x64/libglfw.so".to_string())]
    );
    assert_eq!(native_entry_data(&jar, 2).unwrap(), b"native bytes".to_vec());
    assert_eq!(native_entry_data(&jar, 3).unwrap(), b"glfw".to_vec());
    assert!(native_entry_target(&jar, 9, "/n", &exclude).is_err());
}

#[test]
fn natives_jar_that_is_not_an_archive_is_refused() {
    match native_jar_entry_count("n.jar", b"not a zip") {
        Err(MinecraftError::NativeExtraction(m)) => assert!(m.starts_with("n.jar: ")),
        other => panic!("expected an extraction error, got {other:?}"),
    }
}

#[test]
fn native_targets_skip_directories_and_excluded_entries() {
    let exclude = vec!["META-INF/".to_string()];
    assert_eq!(native_target_for("C:/n", "META-INF/", true, &exclude), None);
    assert_eq!(native_target_for("C:/n", "META-INF/X.SF", false, &exclude), None);
    assert_eq!(native_target_for("C:/n", "sub/", true, &exclude), None);
    assert_eq!(native_target_for("C:/n", "a.dll", false, &exclude), Some("C:/n/a.dll".to_string()));
}
