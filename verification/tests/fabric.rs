use launcher::fabric::{
    fabric_profile_url, loader_versions_url, merge_profile_onto_vanilla, percent_encode_segment,
    launch_version, recommended_loader_version, FabricIntermediary, FabricLoaderForGame, FabricLoaderVersion, FabricProfile,
};
use launcher::version_detail::{
    ArgumentEntry, Arguments, AssetIndexRef, DownloadArtifact, Downloads, Library, VersionDetail,
};

fn lib(name: &str) -> Library {
    Library {
        name: name.to_string(),
        downloads: None,
        rules: vec![],
        natives: None,
        url: None,
        extract: None,
    }
}

fn sample_vanilla() -> VersionDetail {
    VersionDetail {
        id: "1.21.11".to_string(),
        version_type: "release".to_string(),
        main_class: "net.minecraft.client.main.Main".to_string(),
        asset_index: AssetIndexRef {
            id: "21".to_string(),
            sha1: "abc".to_string(),
            size: 1,
            total_size: 1,
            url: "https://example.test/assetindex.json".to_string(),
        },
        assets: "21".to_string(),
        downloads: Downloads {
            client: DownloadArtifact {
                sha1: "def".to_string(),
                size: 2,
                url: "https://example.test/client.jar".to_string(),
            },
        },
        libraries: vec![lib("org.ow2.asm:asm:9.1"), lib("com.mojang:brigadier:1.0.18")],
        java_version: None,
        arguments: Some(Arguments {
            game: vec![ArgumentEntry::Plain("--username".to_string())],
            jvm: vec![ArgumentEntry::Plain("-Djava.library.path=${natives_directory}".to_string())],
        }),
        legacy_minecraft_arguments: None,
        logging: None,
    }
}

fn sample_profile() -> FabricProfile {
    FabricProfile {
        id: "fabric-loader-0.16.9-1.21.11".to_string(),
        main_class: "net.fabricmc.loader.impl.launch.knot.KnotClient".to_string(),
        arguments: Some(Arguments {
            game: vec![],
            jvm: vec![ArgumentEntry::Plain("-DFabricMcEmu=net.minecraft.client.main.Main".to_string())],
        }),
        libraries: vec![
            lib("net.fabricmc:fabric-loader:0.16.9"),
            lib("net.fabricmc:intermediary:1.21.11"),
            lib("org.ow2.asm:asm:9.7"),
        ],
    }
}

fn candidate(version: &str, build: u32, stable: bool) -> FabricLoaderForGame {
    FabricLoaderForGame {
        loader: FabricLoaderVersion {
            separator: ".".into(),
            build,
            maven: format!("net.fabricmc:fabric-loader:{version}"),
            version: version.into(),
            stable,
        },
        intermediary: FabricIntermediary {
            maven: "net.fabricmc:intermediary:1.21.11".into(),
            version: "1.21.11".into(),
            stable: true,
        },
    }
}

#[test]
fn merge_uses_fabric_id_and_main_class() {
    let merged = merge_profile_onto_vanilla(sample_vanilla(), sample_profile());
    assert_eq!(merged.id, "fabric-loader-0.16.9-1.21.11");
    assert_eq!(merged.main_class, "net.fabricmc.loader.impl.launch.knot.KnotClient");
}

#[test]
fn merge_keeps_vanilla_client_jar_and_asset_index() {
    let vanilla = sample_vanilla();
    let merged = merge_profile_onto_vanilla(vanilla.clone(), sample_profile());
    assert_eq!(merged.downloads.client.url, vanilla.downloads.client.url);
    assert_eq!(merged.asset_index.id, vanilla.asset_index.id);
    assert_eq!(merged.assets, vanilla.assets);
}

#[test]
fn merge_combines_and_dedupes_libraries() {
    let merged = merge_profile_onto_vanilla(sample_vanilla(), sample_profile());
    assert_eq!(merged.libraries.len(), 4);
    let asm_lib = merged
        .libraries
        .iter()
        .find(|l| l.name.starts_with("org.ow2.asm:asm:"))
        .unwrap();
    assert_eq!(asm_lib.name, "org.ow2.asm:asm:9.7", "fabric's asm version should win");
}

#[test]
fn merge_concatenates_jvm_and_game_arguments() {
    let merged = merge_profile_onto_vanilla(sample_vanilla(), sample_profile());
    let arguments = merged.arguments.expect("merged arguments should be present");
    assert_eq!(arguments.jvm.len(), 2, "vanilla's jvm arg plus fabric's should both be present");
    assert_eq!(
        arguments.game.len(),
        1,
        "fabric contributed no game args here, vanilla's should survive"
    );
}

#[test]
fn recommended_loader_version_prefers_stable() {
    let candidates = vec![candidate("0.16.10-beta", 2, false), candidate("0.16.9", 1, true)];
    let picked = recommended_loader_version(&candidates).unwrap();
    assert_eq!(
        picked.loader.version, "0.16.9",
        "should skip the unstable entry even though it's first"
    );
}

#[test]
fn recommended_loader_version_falls_back_to_first_when_none_stable() {
    let candidates = vec![candidate("0.17.0-beta", 1, false)];
    let picked = recommended_loader_version(&candidates).unwrap();
    assert_eq!(picked.loader.version, "0.17.0-beta");
}

#[test]
fn recommended_loader_version_empty_list_returns_none() {
    assert!(recommended_loader_version(&[]).is_none());
}

#[test]
fn percent_encode_handles_space_and_leaves_normal_versions_untouched() {
    assert_eq!(percent_encode_segment("1.21.11"), "1.21.11");
    assert_eq!(percent_encode_segment("0.16.9"), "0.16.9");
    assert_eq!(percent_encode_segment("1.14 Pre-Release 5"), "1.14%20Pre-Release%205");
}

#[test]
fn percent_encode_uses_upper_hex_for_every_utf8_byte() {
    assert_eq!(percent_encode_segment("a/b?"), "a%2Fb%3F");
    assert_eq!(percent_encode_segment("é"), "%C3%A9");
    assert_eq!(percent_encode_segment("~_-."), "~_-.");
    assert_eq!(percent_encode_segment(""), "");
}

#[test]
fn recommended_picks_newest_stable_among_several() {
    let candidates = vec![
        candidate("0.3-beta", 3, false),
        candidate("0.2", 2, true),
        candidate("0.1", 1, true),
    ];
    assert_eq!(recommended_loader_version(&candidates).unwrap().loader.version, "0.2");
}

#[test]
fn recommended_picks_newest_stable_whatever_the_list_order() {
    let candidates = vec![
        candidate("0.1", 1, true),
        candidate("0.3-beta", 3, false),
        candidate("0.2", 2, true),
    ];
    assert_eq!(recommended_loader_version(&candidates).unwrap().loader.version, "0.2");
}

#[test]
fn merge_without_profile_arguments_keeps_vanilla_lists() {
    let mut profile = sample_profile();
    profile.arguments = None;
    let merged = merge_profile_onto_vanilla(sample_vanilla(), profile);
    let arguments = merged.arguments.unwrap();
    assert_eq!(arguments.game.len(), 1);
    assert_eq!(arguments.jvm.len(), 1);
    let mut vanilla = sample_vanilla();
    vanilla.arguments = None;
    let mut profile = sample_profile();
    profile.arguments = None;
    assert!(merge_profile_onto_vanilla(vanilla, profile).arguments.is_none());
}

#[test]
fn merge_keeps_first_seen_position_of_overridden_library() {
    let merged = merge_profile_onto_vanilla(sample_vanilla(), sample_profile());
    let names: Vec<&str> = merged.libraries.iter().map(|l| l.name.as_str()).collect();
    assert_eq!(
        names,
        vec![
            "org.ow2.asm:asm:9.7",
            "com.mojang:brigadier:1.0.18",
            "net.fabricmc:fabric-loader:0.16.9",
            "net.fabricmc:intermediary:1.21.11",
        ]
    );
}

#[test]
fn concat_appends_in_order() {
    assert_eq!(launcher::fabric::concat(vec![1, 2], vec![3]), vec![1, 2, 3]);
    assert_eq!(launcher::fabric::concat(Vec::<u8>::new(), vec![]), Vec::<u8>::new());
}

#[test]
fn meta_urls_encode_each_segment() {
    assert_eq!(
        loader_versions_url("1.14 Pre-Release 5"),
        "https://meta.fabricmc.net/v2/versions/loader/1.14%20Pre-Release%205"
    );
    assert_eq!(
        fabric_profile_url("1.21.11", "0.16.9"),
        "https://meta.fabricmc.net/v2/versions/loader/1.21.11/0.16.9/profile/json"
    );
}

#[test]
fn client_jar_stays_keyed_by_the_vanilla_id() {
    let vanilla = sample_vanilla();
    let vanilla_id = vanilla.id.clone();
    let fabric = launch_version(vanilla, Some(sample_profile()));
    assert_eq!(fabric.jar_cache_id, vanilla_id);
    assert_ne!(fabric.version.id, vanilla_id);
    let plain = launch_version(sample_vanilla(), None);
    assert_eq!(plain.jar_cache_id, vanilla_id);
    assert_eq!(plain.version.id, vanilla_id);
}
