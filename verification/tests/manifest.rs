use launcher::manifest::{LatestVersions, VersionManifest, VersionSummary, VersionType};

fn summary(id: &str, version_type: VersionType, url: &str, time: &str) -> VersionSummary {
    VersionSummary {
        id: id.to_string(),
        version_type,
        url: url.to_string(),
        release_time: time.to_string(),
    }
}

#[test]
fn parses_a_realistic_manifest_fragment() {
    let manifest = VersionManifest {
        latest: LatestVersions { release: "1.21.11".to_string(), snapshot: "26w03a".to_string() },
        versions: vec![
            summary("26w03a", VersionType::Snapshot, "https://example.test/26w03a.json", "2026-01-15T12:00:00+00:00"),
            summary("1.21.11", VersionType::Release, "https://example.test/1.21.11.json", "2026-01-08T12:00:00+00:00"),
        ],
    };
    assert_eq!(manifest.latest.release, "1.21.11");
    assert_eq!(manifest.versions.len(), 2);
    assert_eq!(manifest.find("1.21.11").unwrap().version_type, VersionType::Release);
    assert!(manifest.find("does-not-exist").is_none());
}

#[test]
fn find_returns_the_first_entry_with_the_id() {
    let manifest = VersionManifest {
        latest: LatestVersions { release: "a".to_string(), snapshot: "b".to_string() },
        versions: vec![
            summary("x", VersionType::OldAlpha, "u1", "t"),
            summary("x", VersionType::OldBeta, "u2", "t"),
        ],
    };
    assert_eq!(manifest.find("x").unwrap().url, "u1");
}
