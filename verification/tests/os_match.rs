use launcher::os_match::{
    mojang_os_name, rule_matches_platform, rules_allow, FeatureFlags, FeatureRequirement, OsRule, Platform,
    Rule, RuleAction,
};

fn linux() -> Platform {
    Platform { os: "linux".to_string(), arch: "x86_64".to_string() }
}

fn allow_all() -> Rule {
    Rule { action: RuleAction::Allow, os: None, features: None }
}

fn os_rule(action: RuleAction, name: Option<&str>, arch: Option<&str>) -> Rule {
    Rule {
        action,
        os: Some(OsRule { name: name.map(String::from), version: None, arch: arch.map(String::from) }),
        features: None,
    }
}

#[test]
fn empty_rules_always_allowed() {
    assert!(rules_allow(&[], &FeatureFlags::new(), &linux()));
}

#[test]
fn allow_all_then_disallow_one_os_excludes_only_that_os() {
    let rules = vec![allow_all(), os_rule(RuleAction::Disallow, Some("definitely-not-this-platform"), None)];
    assert!(rules_allow(&rules, &FeatureFlags::new(), &linux()));
}

#[test]
fn disallow_current_os_is_excluded() {
    let platform = linux();
    let current = mojang_os_name(platform.os.as_str());
    let rules = vec![allow_all(), os_rule(RuleAction::Disallow, Some(current.as_str()), None)];
    assert!(!rules_allow(&rules, &FeatureFlags::new(), &platform));
}

#[test]
fn feature_gated_rule_requires_matching_flag() {
    let rules = vec![Rule {
        action: RuleAction::Allow,
        os: None,
        features: Some(vec![FeatureRequirement { name: "is_demo_user".to_string(), enabled: true }]),
    }];
    let mut flags = FeatureFlags::new();
    assert!(!rules_allow(&rules, &flags, &linux()), "feature defaults to false");
    flags.set("is_demo_user", true);
    assert!(rules_allow(&rules, &flags, &linux()));
}

#[test]
fn mojang_os_name_mapping() {
    assert_ne!(mojang_os_name("macos"), "macos");
    assert_eq!(mojang_os_name("macos"), "osx");
    assert_eq!(mojang_os_name("windows"), "windows");
    assert_eq!(mojang_os_name("linux"), "linux");
    assert_eq!(mojang_os_name("freebsd"), "freebsd");
}

#[test]
fn last_matching_rule_decides() {
    let platform = Platform { os: "macos".to_string(), arch: "aarch64".to_string() };
    let rules = vec![
        os_rule(RuleAction::Disallow, Some("osx"), None),
        os_rule(RuleAction::Allow, Some("osx"), Some("^aarch64$")),
    ];
    assert!(rules_allow(&rules, &FeatureFlags::new(), &platform));
    let only_disallow = vec![os_rule(RuleAction::Disallow, Some("linux"), None)];
    assert!(!rules_allow(&only_disallow, &FeatureFlags::new(), &platform));
}

#[test]
fn arch_pattern_is_a_regex_with_plain_fallback() {
    let x86 = Platform { os: "windows".to_string(), arch: "x86".to_string() };
    assert!(rule_matches_platform(&os_rule(RuleAction::Allow, None, Some("^x86$")), &FeatureFlags::new(), &x86));
    assert!(!rule_matches_platform(&os_rule(RuleAction::Allow, None, Some("^x86$")), &FeatureFlags::new(), &linux()));
    assert!(rule_matches_platform(&os_rule(RuleAction::Allow, None, Some("x86")), &FeatureFlags::new(), &linux()));
    let broken = Platform { os: "linux".to_string(), arch: "(".to_string() };
    assert!(rule_matches_platform(&os_rule(RuleAction::Allow, None, Some("(")), &FeatureFlags::new(), &broken));
    assert!(!rule_matches_platform(&os_rule(RuleAction::Allow, None, Some("(")), &FeatureFlags::new(), &linux()));
}

#[test]
fn feature_flags_set_and_clear() {
    let mut flags = FeatureFlags::new();
    assert!(!flags.is_active("a"));
    flags.set("a", true);
    flags.set("b", true);
    assert!(flags.is_active("a") && flags.is_active("b"));
    flags.set("a", false);
    assert!(!flags.is_active("a"));
    assert!(flags.is_active("b"));
}
