use launcher::os_match::{FeatureFlags, FeatureRequirement, Platform, Rule, RuleAction};
use launcher::version_detail::{
    resolve_arguments, resolve_legacy_game_arguments, substitute, ArgumentEntry, ConditionalArgument,
    Placeholder, StringOrList,
};

fn linux() -> Platform {
    Platform { os: "linux".to_string(), arch: "x86_64".to_string() }
}

fn ph(key: &str, value: &str) -> Placeholder {
    Placeholder { key: key.to_string(), value: value.to_string() }
}

fn placeholders() -> Vec<Placeholder> {
    vec![ph("auth_player_name", "Steve"), ph("version_name", "1.21.11")]
}

#[test]
fn plain_entries_get_substituted() {
    let entries = vec![
        ArgumentEntry::Plain("--username".into()),
        ArgumentEntry::Plain("${auth_player_name}".into()),
    ];
    let resolved = resolve_arguments(&entries, &FeatureFlags::new(), &placeholders(), &linux());
    assert_eq!(resolved, vec!["--username".to_string(), "Steve".to_string()]);
}

#[test]
fn conditional_entry_dropped_when_feature_inactive() {
    let entries = vec![ArgumentEntry::Conditional(ConditionalArgument {
        rules: vec![Rule {
            action: RuleAction::Allow,
            os: None,
            features: Some(vec![FeatureRequirement { name: "is_demo_user".to_string(), enabled: true }]),
        }],
        value: StringOrList::Single("--demo".into()),
    })];
    let resolved = resolve_arguments(&entries, &FeatureFlags::new(), &placeholders(), &linux());
    assert!(resolved.is_empty());
}

#[test]
fn conditional_entry_with_multiple_values_expands_all() {
    let entries = vec![ArgumentEntry::Conditional(ConditionalArgument {
        rules: vec![],
        value: StringOrList::Multiple(vec!["--width".into(), "${resolution_width}".into()]),
    })];
    let mut placeholders = placeholders();
    placeholders.push(ph("resolution_width", "1280"));
    let resolved = resolve_arguments(&entries, &FeatureFlags::new(), &placeholders, &linux());
    assert_eq!(resolved, vec!["--width".to_string(), "1280".to_string()]);
}

#[test]
fn legacy_arguments_split_and_substitute() {
    let resolved = resolve_legacy_game_arguments(
        "--username ${auth_player_name} --version ${version_name}",
        &placeholders(),
    );
    assert_eq!(
        resolved,
        vec!["--username", "Steve", "--version", "1.21.11"]
            .into_iter()
            .map(String::from)
            .collect::<Vec<_>>()
    );
}

#[test]
fn substitution_replaces_every_occurrence_and_leaves_unknown_tokens() {
    let p = vec![ph("a", "1"), ph("b", "2")];
    assert_eq!(substitute("${a}-${a}-${b}-${c}", &p), "1-1-2-${c}");
    assert_eq!(resolve_legacy_game_arguments("  ", &p), Vec::<String>::new());
}
