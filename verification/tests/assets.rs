use launcher::assets::{
    build_asset_download_tasks, needs_legacy_layout, object_path, AssetIndex, AssetObject, NamedAsset,
    RESOURCES_BASE_URL,
};

fn named(name: &str, hash: &str, size: u64) -> NamedAsset {
    NamedAsset {
        name: name.to_string(),
        object: AssetObject { hash: hash.to_string(), size },
    }
}

fn sample_index() -> AssetIndex {
    AssetIndex {
        objects: vec![
            named(
                "minecraft/sounds/random/click.ogg",
                "aabbccddeeff00112233445566778899aabbccd",
                1234,
            ),
            named(
                "minecraft/lang/en_us.json",
                "00112233445566778899aabbccddeeff0011223",
                5678,
            ),
        ],
    }
}

#[test]
fn builds_one_task_per_unique_hash() {
    let index = sample_index();
    let tasks = build_asset_download_tasks(&index, "/tmp/assets");
    assert_eq!(tasks.len(), 2);
    for task in &tasks {
        assert!(task.url.starts_with(RESOURCES_BASE_URL));
        assert!(task.sha1.is_some());
    }
}

#[test]
fn duplicate_hashes_collapse_to_one_task() {
    let index = AssetIndex {
        objects: vec![
            named("a.txt", "1111111111111111111111111111111111111", 1),
            named("b.txt", "1111111111111111111111111111111111111", 1),
        ],
    };
    let tasks = build_asset_download_tasks(&index, "/tmp/assets");
    assert_eq!(tasks.len(), 1, "identical hashes should only be downloaded once");
}

#[test]
fn legacy_layout_detection() {
    assert!(needs_legacy_layout("legacy"));
    assert!(needs_legacy_layout("pre-1.6"));
    assert!(!needs_legacy_layout("21"));
}

#[test]
fn asset_task_has_exact_url_destination_and_label() {
    let index = sample_index();
    let tasks = build_asset_download_tasks(&index, "/tmp/assets");
    let t = &tasks[0];
    assert_eq!(
        t.url,
        "https://resources.download.minecraft.net/aa/aabbccddeeff00112233445566778899aabbccd"
    );
    assert_eq!(
        t.destination,
        "/tmp/assets/objects/aa/aabbccddeeff00112233445566778899aabbccd"
    );
    assert_eq!(t.label, "asset: minecraft/sounds/random/click.ogg");
    assert_eq!(t.sha1.as_deref(), Some("aabbccddeeff00112233445566778899aabbccd"));
    assert_eq!(t.expected_size, Some(1234));
    assert_eq!(tasks[1].url, "https://resources.download.minecraft.net/00/00112233445566778899aabbccddeeff0011223");
}

#[test]
fn object_path_is_content_addressed() {
    let object = AssetObject { hash: "ff00".to_string(), size: 3 };
    assert_eq!(object_path("/data/cache/assets", &object), "/data/cache/assets/objects/ff/ff00");
    let short = AssetObject { hash: "f".to_string(), size: 3 };
    assert_eq!(object_path("/a", &short), "/a/objects/f/f");
}

#[test]
fn dedup_keeps_first_object_and_every_distinct_hash() {
    let index = AssetIndex {
        objects: vec![
            named("one", "aa11", 1),
            named("two", "bb22", 2),
            named("three", "aa11", 1),
            named("four", "cc33", 4),
        ],
    };
    let tasks = build_asset_download_tasks(&index, "/x");
    let hashes: Vec<&str> = tasks.iter().map(|t| t.sha1.as_deref().unwrap()).collect();
    assert_eq!(hashes, vec!["aa11", "bb22", "cc33"]);
    assert_eq!(tasks[0].label, "asset: one");
}
