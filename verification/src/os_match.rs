//! Mojang "rules" arrays: deciding whether a library or a conditional
//! argument applies on the running platform with the active feature flags.
use vstd::prelude::*;

use crate::ext::{regex_compiles, regex_finds, regex_is_match, regex_is_valid};
use crate::text::{owned, str_eq};

verus! {

/// Whether a matching rule includes or excludes.
#[derive(Debug, Clone, Copy, PartialEq, Eq, Structural)]
pub enum RuleAction {
    Allow,
    Disallow,
}

/// The platform conditions of a rule; every present field must match.
#[derive(Debug, Clone, Default)]
pub struct OsRule {
    /// Mojang's name for the OS (`"windows"`, `"osx"`, `"linux"`).
    pub name: Option<String>,
    /// A pattern over the OS version. The running OS version is not known,
    /// so this condition is treated as matching.
    pub version: Option<String>,
    /// A regular expression (or plain text) over the CPU architecture.
    pub arch: Option<String>,
}

/// One required feature value of a rule.
#[derive(Debug, Clone)]
pub struct FeatureRequirement {
    pub name: String,
    pub enabled: bool,
}

/// A single entry from a Mojang `rules` array.
#[derive(Debug, Clone)]
pub struct Rule {
    pub action: RuleAction,
    pub os: Option<OsRule>,
    pub features: Option<Vec<FeatureRequirement>>,
}

/// The platform a launch runs on, in the terms of Rust's
/// `std::env::consts` (`OS` such as `"linux"`/`"macos"`/`"windows"`,
/// `ARCH` such as `"x86_64"`/`"aarch64"`).
#[derive(Debug, Clone)]
pub struct Platform {
    pub os: String,
    pub arch: String,
}

/// Which optional launch-time features are active (demo mode, custom
/// resolution, ...). A feature that was never set counts as inactive.
#[derive(Debug, Clone, Default)]
pub struct FeatureFlags {
    flags: Vec<FeatureRequirement>,
}

/// The value the last entry for `key` gives, if any.
pub open spec fn lookup_flag(flags: Seq<FeatureRequirement>, key: Seq<char>) -> Option<bool>
    decreases flags.len(),
{
    if flags.len() == 0 {
        None
    } else if flags.last().name@ == key {
        Some(flags.last().enabled)
    } else {
        lookup_flag(flags.drop_last(), key)
    }
}

impl View for FeatureFlags {
    /// The set of active features.
    type V = Set<Seq<char>>;

    closed spec fn view(&self) -> Set<Seq<char>> {
        Set::new(|k: Seq<char>| lookup_flag(self.flags@, k) == Some(true))
    }
}

impl FeatureFlags {
    /// Whether the feature `key` is active.
    pub open spec fn active(&self, key: Seq<char>) -> bool {
        self@.contains(key)
    }

    /// No feature active.
    pub fn new() -> (f: FeatureFlags)
        ensures
            f@ == Set::<Seq<char>>::empty(),
    {
        let f = FeatureFlags { flags: Vec::new() };
        assert(f@ =~= Set::<Seq<char>>::empty());
        f
    }

    /// Sets feature `key` to `value`, leaving every other feature as it was.
    pub fn set(&mut self, key: &str, value: bool)
        ensures
            final(self)@ == if value {
                old(self)@.insert(key@)
            } else {
                old(self)@.remove(key@)
            },
    {
        let entry = FeatureRequirement { name: owned(key), enabled: value };
        let mut i = self.flags.len();
        while i > 0
            invariant
                i <= self.flags.len(),
                self.flags@ == old(self).flags@,
                entry.name@ == key@,
                entry.enabled == value,
                forall|j: int| i <= j < self.flags.len() ==> self.flags@[j].name@ != key@,
            decreases i,
        {
            if str_eq(self.flags[i - 1].name.as_str(), key) {
                let ghost before = self.flags@;
                assert(before[i - 1].name@ == key@);
                assert(entry.name@ == key@);
                self.flags.set(i - 1, entry);
                assert(self.flags@ == before.update(i - 1, entry));
                proof {
                    lemma_lookup_after_replace(before, (i - 1) as int, entry);
                    if value {
                        assert(self@ =~= old(self)@.insert(key@));
                    } else {
                        assert(self@ =~= old(self)@.remove(key@));
                    }
                }
                return;
            }
            i = i - 1;
        }
        let ghost before = self.flags@;
        self.flags.push(entry);
        proof {
            assert(self.flags@.drop_last() =~= before);
            if value {
                assert(self@ =~= old(self)@.insert(key@));
            } else {
                assert(self@ =~= old(self)@.remove(key@));
            }
        }
    }

    /// Whether feature `key` is active.
    pub fn is_active(&self, key: &str) -> (r: bool)
        ensures
            r == self.active(key@),
    {
        let mut i = self.flags.len();
        assert(self.flags@.take(i as int) =~= self.flags@);
        while i > 0
            invariant
                i <= self.flags.len(),
                lookup_flag(self.flags@, key@) == lookup_flag(self.flags@.take(i as int), key@),
            decreases i,
        {
            let ghost prefix = self.flags@.take(i as int);
            assert(prefix.drop_last() =~= self.flags@.take(i - 1));
            if str_eq(self.flags[i - 1].name.as_str(), key) {
                return self.flags[i - 1].enabled;
            }
            i = i - 1;
        }
        false
    }
}

/// Replacing the last entry for a key changes that key's value and no
/// other key's.
pub proof fn lemma_lookup_after_replace(flags: Seq<FeatureRequirement>, i: int, e: FeatureRequirement)
    requires
        0 <= i < flags.len(),
        flags[i].name@ == e.name@,
        forall|j: int| i < j < flags.len() ==> flags[j].name@ != e.name@,
    ensures
        lookup_flag(flags.update(i, e), e.name@) == Some(e.enabled),
        forall|k: Seq<char>|
            k != e.name@ ==> lookup_flag(flags.update(i, e), k) == lookup_flag(flags, k),
    decreases flags.len(),
{
    let g = flags.update(i, e);
    if i < flags.len() - 1 {
        assert(g.drop_last() =~= flags.drop_last().update(i, e));
        lemma_lookup_after_replace(flags.drop_last(), i, e);
        assert(g.last() == flags.last());
        assert forall|k: Seq<char>| k != e.name@ implies lookup_flag(g, k) == lookup_flag(
            flags,
            k,
        ) by {
            if g.last().name@ == k {
            } else {
                assert(lookup_flag(g, k) == lookup_flag(g.drop_last(), k));
                assert(lookup_flag(flags.drop_last().update(i, e), k) == lookup_flag(
                    flags.drop_last(),
                    k,
                ));
                assert(lookup_flag(flags, k) == lookup_flag(flags.drop_last(), k));
            }
        }
    } else {
        assert(g.drop_last() =~= flags.drop_last());
        assert(g.last() == e);
        assert forall|k: Seq<char>| k != e.name@ implies lookup_flag(g, k) == lookup_flag(
            flags,
            k,
        ) by {
            assert(lookup_flag(g, k) == lookup_flag(g.drop_last(), k));
            assert(lookup_flag(flags, k) == lookup_flag(flags.drop_last(), k));
        }
    }
}

/// Mojang's name for a Rust OS name: `"macos"` becomes `"osx"`, everything
/// else is kept.
pub open spec fn mojang_os(os: Seq<char>) -> Seq<char> {
    if os == "macos"@ {
        "osx"@
    } else {
        os
    }
}

/// Mojang's launcher name for an OS given by its Rust name (what
/// `std::env::consts::OS` says): `"macos"` is `"osx"` in every version
/// JSON; other names are the same in both.
pub fn mojang_os_name(os: &str) -> (r: String)
    ensures
        r@ == mojang_os(os@),
{
    if str_eq(os, "macos") {
        owned("osx")
    } else {
        owned(os)
    }
}

/// An architecture pattern matches when it is a valid regular expression
/// that matches, or, failing to compile, when it equals the architecture.
pub open spec fn arch_matches_spec(pattern: Seq<char>, arch: Seq<char>) -> bool {
    if regex_is_valid(pattern) {
        regex_finds(pattern, arch)
    } else {
        pattern == arch
    }
}

/// Whether the OS conditions of a rule hold on `platform`.
pub open spec fn os_rule_matches(os: OsRule, platform: Platform) -> bool {
    &&& (os.name matches Some(n) ==> n@ == mojang_os(platform.os@))
    &&& (os.arch matches Some(a) ==> arch_matches_spec(a@, platform.arch@))
}

/// Whether every required feature has its required value.
pub open spec fn features_match(req: Seq<FeatureRequirement>, active: Set<Seq<char>>) -> bool {
    forall|i: int| 0 <= i < req.len() ==> active.contains(#[trigger] req[i].name@) == req[i].enabled
}

/// Whether a rule matches: its OS conditions and feature conditions hold.
pub open spec fn rule_matches(rule: Rule, features: Set<Seq<char>>, platform: Platform) -> bool {
    &&& (rule.os matches Some(os) ==> os_rule_matches(os, platform))
    &&& (rule.features matches Some(req) ==> features_match(req@, features))
}

/// The decision of a non-empty rules array: the action of the last rule
/// that matches, or exclusion when none matches.
pub open spec fn rules_decision(rules: Seq<Rule>, features: Set<Seq<char>>, platform: Platform) -> bool
    decreases rules.len(),
{
    if rules.len() == 0 {
        false
    } else if rule_matches(rules.last(), features, platform) {
        rules.last().action == RuleAction::Allow
    } else {
        rules_decision(rules.drop_last(), features, platform)
    }
}

/// Whether a rules array admits the platform: an empty array always does;
/// otherwise the last matching rule decides, and no match excludes.
pub open spec fn rules_admit(rules: Seq<Rule>, features: Set<Seq<char>>, platform: Platform) -> bool {
    rules.len() == 0 || rules_decision(rules, features, platform)
}

/// Decides an architecture condition from what the regular expression
/// engine answered (`None`: the pattern did not compile, in which case
/// plain equality decides).
pub fn arch_match_from(engine_answer: Option<bool>, pattern: &str, arch: &str) -> (r: bool)
    ensures
        r == match engine_answer {
            Some(b) => b,
            None => pattern@ == arch@,
        },
{
    match engine_answer {
        Some(b) => b,
        None => str_eq(pattern, arch),
    }
}

/// Whether the architecture pattern of a rule matches `arch`.
pub fn arch_matches(pattern: &str, arch: &str) -> (r: bool)
    ensures
        r == arch_matches_spec(pattern@, arch@),
{
    let answer = regex_is_match(pattern, arch);
    arch_match_from(answer, pattern, arch)
}

/// The OS version condition. The running OS version is not known here, so
/// the condition fails open: it always matches. The pattern is still
/// compiled by the regular expression engine, whose answer is not used.
pub fn os_version_matches(pattern: &str) -> (r: bool)
    ensures
        r,
{
    let _ = regex_compiles(pattern);
    true
}

/// Whether one rule matches on `platform` with `features`.
#[verifier::loop_isolation(false)]
pub fn rule_matches_platform(rule: &Rule, features: &FeatureFlags, platform: &Platform) -> (r: bool)
    ensures
        r == rule_matches(*rule, features@, *platform),
{
    if let Some(os) = &rule.os {
        if let Some(name) = &os.name {
            let current = mojang_os_name(platform.os.as_str());
            if !str_eq(name.as_str(), current.as_str()) {
                return false;
            }
        }
        if let Some(arch) = &os.arch {
            if !arch_matches(arch.as_str(), platform.arch.as_str()) {
                return false;
            }
        }
        if let Some(version) = &os.version {
            if !os_version_matches(version.as_str()) {
                return false;
            }
        }
    }
    if let Some(required) = &rule.features {
        let mut i: usize = 0;
        while i < required.len()
            invariant
                0 <= i <= required.len(),
                forall|j: int|
                    0 <= j < i ==> features@.contains(#[trigger] required@[j].name@)
                        == required@[j].enabled,
            decreases required.len() - i,
        {
            if features.is_active(required[i].name.as_str()) != required[i].enabled {
                assert(features.active(required@[i as int].name@) != required@[i as int].enabled);
                assert(!features_match(required@, features@));
                return false;
            }
            i = i + 1;
        }
    }
    true
}

/// Evaluates a Mojang `rules` array on `platform`: an empty array always
/// admits; otherwise each rule is checked in order and the last one that
/// matches decides, with exclusion as the starting assumption.
pub fn rules_allow(rules: &[Rule], features: &FeatureFlags, platform: &Platform) -> (r: bool)
    ensures
        r == rules_admit(rules@, features@, *platform),
{
    if rules.len() == 0 {
        return true;
    }
    let mut allowed = false;
    let mut i: usize = 0;
    assert(rules@.take(0) =~= Seq::<Rule>::empty());
    while i < rules.len()
        invariant
            0 <= i <= rules.len(),
            allowed == rules_decision(rules@.take(i as int), features@, *platform),
        decreases rules.len() - i,
    {
        if rule_matches_platform(&rules[i], features, platform) {
            allowed = rules[i].action == RuleAction::Allow;
        }
        assert(rules@.take(i + 1).drop_last() =~= rules@.take(i as int));
        i = i + 1;
    }
    assert(rules@.take(rules.len() as int) =~= rules@);
    allowed
}

/// The pattern rules arrays are built for: an unconditional allow followed
/// by a disallow naming one OS admits every platform but that OS (feature
/// flags play no part).
pub proof fn lemma_allow_then_disallow_one_os(
    allow: Rule,
    disallow: Rule,
    features: Set<Seq<char>>,
    platform: Platform,
)
    requires
        allow.action == RuleAction::Allow,
        allow.os is None,
        allow.features is None,
        disallow.action == RuleAction::Disallow,
        disallow.os matches Some(os) && os.name is Some && os.arch is None,
        disallow.features is None,
    ensures
        rules_admit(seq![allow, disallow], features, platform) == (disallow.os->0.name->0@
            != mojang_os(platform.os@)),
{
    let rules = seq![allow, disallow];
    assert(rules.drop_last() =~= seq![allow]);
    assert(rules.last() == disallow);
    assert(seq![allow].last() == allow);
    assert(rule_matches(allow, features, platform));
    let os = disallow.os->0;
    assert(rule_matches(disallow, features, platform) == os_rule_matches(os, platform));
    assert(os_rule_matches(os, platform) == (os.name->0@ == mojang_os(platform.os@)));
    assert(rules_decision(seq![allow], features, platform));
}

/// A rules array of one allow rule naming an OS admits exactly the
/// platforms whose OS has that Mojang name (so an `osx` rule admits a
/// platform Rust calls `macos`, and no other OS); features play no part.
pub proof fn lemma_allow_one_os(allow: Rule, features: Set<Seq<char>>, platform: Platform)
    requires
        allow.action == RuleAction::Allow,
        allow.os matches Some(os) && os.name is Some && os.arch is None,
        allow.features is None,
    ensures
        rules_admit(seq![allow], features, platform) == (allow.os->0.name->0@ == mojang_os(platform.os@)),
        platform.os@ == "macos"@ ==> rules_admit(seq![allow], features, platform) == (allow.os->0.name->0@
            == "osx"@),
{
    reveal_strlit("macos");
    reveal_strlit("osx");
    let rules = seq![allow];
    assert(rules.last() == allow);
    assert(rules.drop_last() =~= Seq::<Rule>::empty());
    let os = allow.os->0;
    assert(rule_matches(allow, features, platform) == os_rule_matches(os, platform));
    assert(os_rule_matches(os, platform) == (os.name->0@ == mojang_os(platform.os@)));
    assert(!rules_decision(Seq::<Rule>::empty(), features, platform));
    assert(rules_decision(rules, features, platform) == rule_matches(allow, features, platform));
    assert(mojang_os("macos"@) == "osx"@);
}

} // verus!
