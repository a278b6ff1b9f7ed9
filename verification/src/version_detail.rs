//! The structure of a version's `<version>.json` as published by Mojang,
//! and the expansion of its JVM/game argument templates.
use vstd::prelude::*;

use crate::os_match::{FeatureFlags, Platform, Rule, rules_admit, rules_allow};
use crate::text::{concat3, replace, replace_all, split_whitespace, split_ws, views};

verus! {

/// A whole version description: what to download, how to launch it.
#[derive(Debug, Clone)]
pub struct VersionDetail {
    pub id: String,
    pub version_type: String,
    pub main_class: String,
    pub asset_index: AssetIndexRef,
    pub assets: String,
    pub downloads: Downloads,
    pub libraries: Vec<Library>,
    pub java_version: Option<JavaVersionInfo>,
    /// Present on 1.13+. When absent, `legacy_minecraft_arguments` applies.
    pub arguments: Option<Arguments>,
    /// Present on versions older than 1.13: one space-separated string.
    pub legacy_minecraft_arguments: Option<String>,
    pub logging: Option<LoggingConfig>,
}

/// Where a version's asset index is published.
#[derive(Debug, Clone)]
pub struct AssetIndexRef {
    pub id: String,
    pub sha1: String,
    pub size: u64,
    pub total_size: u64,
    pub url: String,
}

/// The client jar download of a version.
#[derive(Debug, Clone)]
pub struct Downloads {
    pub client: DownloadArtifact,
}

/// One downloadable file with its checksum and size.
#[derive(Debug, Clone)]
pub struct DownloadArtifact {
    pub sha1: String,
    pub size: u64,
    pub url: String,
}

/// The Java runtime a version needs.
#[derive(Debug, Clone)]
pub struct JavaVersionInfo {
    pub component: String,
    pub major_version: u32,
}

/// One library of a version (or of a loader profile).
#[derive(Debug, Clone)]
pub struct Library {
    /// Maven coordinate `group:artifact:version[:classifier]`.
    pub name: String,
    pub downloads: Option<LibraryDownloads>,
    pub rules: Vec<Rule>,
    /// OS name → classifier key into `downloads.classifiers`, for libraries
    /// that ship native code the pre-1.19 way.
    pub natives: Option<Vec<NativesEntry>>,
    /// Maven repository base URL, for libraries given by coordinate only.
    pub url: Option<String>,
    /// Which paths inside a natives jar to skip when extracting.
    pub extract: Option<ExtractRules>,
}

/// One `natives` mapping: on `os`, the native jar is `classifier`.
#[derive(Debug, Clone)]
pub struct NativesEntry {
    pub os: String,
    pub classifier: String,
}

/// Path prefixes to skip when extracting a natives jar.
#[derive(Debug, Clone)]
pub struct ExtractRules {
    pub exclude: Vec<String>,
}

/// The resolved downloads of a library.
#[derive(Debug, Clone, Default)]
pub struct LibraryDownloads {
    pub artifact: Option<LibraryArtifact>,
    pub classifiers: Vec<ClassifierArtifact>,
}

/// One classifier of a library with its artifact.
#[derive(Debug, Clone)]
pub struct ClassifierArtifact {
    pub classifier: String,
    pub artifact: LibraryArtifact,
}

/// A library jar: its path inside a Maven layout, checksum, size, URL.
#[derive(Debug, Clone)]
pub struct LibraryArtifact {
    pub path: String,
    pub sha1: String,
    pub size: u64,
    pub url: String,
}

/// The logging configuration of a version.
#[derive(Debug, Clone)]
pub struct LoggingConfig {
    pub client: LoggingClientConfig,
}

/// The client logging configuration: a JVM argument template (e.g.
/// `-Dlog4j.configurationFile=${path}`) and the file it points to.
#[derive(Debug, Clone)]
pub struct LoggingClientConfig {
    pub argument: String,
    pub file: LoggingFile,
}

/// The logging configuration file.
#[derive(Debug, Clone)]
pub struct LoggingFile {
    pub id: String,
    pub sha1: String,
    pub size: u64,
    pub url: String,
}

/// The structured argument lists of 1.13+ versions.
#[derive(Debug, Clone, Default)]
pub struct Arguments {
    pub game: Vec<ArgumentEntry>,
    pub jvm: Vec<ArgumentEntry>,
}

/// One element of an argument list: a bare template, or a rule-gated
/// entry expanding to zero, one or several arguments.
#[derive(Debug, Clone)]
pub enum ArgumentEntry {
    Plain(String),
    Conditional(ConditionalArgument),
}

/// A rule-gated argument entry.
#[derive(Debug, Clone)]
pub struct ConditionalArgument {
    pub rules: Vec<Rule>,
    pub value: StringOrList,
}

/// One template or several.
#[derive(Debug, Clone)]
pub enum StringOrList {
    Single(String),
    Multiple(Vec<String>),
}

/// One `${key}` → value substitution.
#[derive(Debug, Clone)]
pub struct Placeholder {
    pub key: String,
    pub value: String,
}

/// The token `${key}`.
pub open spec fn needle_of(key: Seq<char>) -> Seq<char> {
    seq!['$', '{'] + key + seq!['}']
}

/// `template` with each placeholder's token replaced by its value, the
/// placeholders applied one after another in order.
pub open spec fn substituted(template: Seq<char>, placeholders: Seq<Placeholder>) -> Seq<char>
    decreases placeholders.len(),
{
    if placeholders.len() == 0 {
        template
    } else {
        replace_all(
            substituted(template, placeholders.drop_last()),
            needle_of(placeholders.last().key@),
            placeholders.last().value@,
        )
    }
}

/// Every template of a sequence, substituted.
pub open spec fn substituted_all(templates: Seq<Seq<char>>, placeholders: Seq<Placeholder>) -> Seq<
    Seq<char>,
> {
    templates.map_values(|t: Seq<char>| substituted(t, placeholders))
}

/// The arguments one entry contributes: a plain entry its substituted
/// template; a conditional one nothing when its rules do not admit the
/// platform, else its substituted template(s).
pub open spec fn entry_args(
    e: ArgumentEntry,
    features: Set<Seq<char>>,
    placeholders: Seq<Placeholder>,
    platform: Platform,
) -> Seq<Seq<char>> {
    match e {
        ArgumentEntry::Plain(t) => seq![substituted(t@, placeholders)],
        ArgumentEntry::Conditional(c) => if !rules_admit(c.rules@, features, platform) {
            seq![]
        } else {
            match c.value {
                StringOrList::Single(t) => seq![substituted(t@, placeholders)],
                StringOrList::Multiple(ts) => substituted_all(views(ts@), placeholders),
            }
        },
    }
}

/// The arguments of a whole list, entry by entry, in order.
pub open spec fn resolved_args(
    entries: Seq<ArgumentEntry>,
    features: Set<Seq<char>>,
    placeholders: Seq<Placeholder>,
    platform: Platform,
) -> Seq<Seq<char>>
    decreases entries.len(),
{
    if entries.len() == 0 {
        seq![]
    } else {
        resolved_args(entries.drop_last(), features, placeholders, platform) + entry_args(
            entries.last(),
            features,
            placeholders,
            platform,
        )
    }
}

/// Expanding a list is expanding its parts: the arguments of `a + b` are
/// those of `a` followed by those of `b`.
pub proof fn lemma_resolved_args_concat(
    a: Seq<ArgumentEntry>,
    b: Seq<ArgumentEntry>,
    features: Set<Seq<char>>,
    placeholders: Seq<Placeholder>,
    platform: Platform,
)
    ensures
        resolved_args(a + b, features, placeholders, platform) == resolved_args(a, features, placeholders, platform)
            + resolved_args(b, features, placeholders, platform),
    decreases b.len(),
{
    if b.len() == 0 {
        assert(a + b =~= a);
    } else {
        assert((a + b).drop_last() =~= a + b.drop_last());
        assert((a + b).last() == b.last());
        lemma_resolved_args_concat(a, b.drop_last(), features, placeholders, platform);
        let ra = resolved_args(a, features, placeholders, platform);
        let rb = resolved_args(b.drop_last(), features, placeholders, platform);
        let e = entry_args(b.last(), features, placeholders, platform);
        assert(ra + rb + e =~= ra + (rb + e));
    }
}

/// A rule-gated entry inside an argument list: when its rules do not admit
/// the platform with the features, it contributes nothing, whether it holds
/// one template or a list; when they do, each of its templates appears,
/// substituted, in order, between the arguments of the entries before it
/// and those of the entries after it.
pub proof fn lemma_conditional_entry_gated(
    before: Seq<ArgumentEntry>,
    c: ConditionalArgument,
    after: Seq<ArgumentEntry>,
    features: Set<Seq<char>>,
    placeholders: Seq<Placeholder>,
    platform: Platform,
)
    ensures
        !rules_admit(c.rules@, features, platform) ==> resolved_args(
            before.push(ArgumentEntry::Conditional(c)) + after,
            features,
            placeholders,
            platform,
        ) == resolved_args(before, features, placeholders, platform) + resolved_args(
            after,
            features,
            placeholders,
            platform,
        ),
        rules_admit(c.rules@, features, platform) ==> match c.value {
            StringOrList::Single(t) => resolved_args(
                before.push(ArgumentEntry::Conditional(c)) + after,
                features,
                placeholders,
                platform,
            ) == resolved_args(before, features, placeholders, platform).push(substituted(t@, placeholders))
                + resolved_args(after, features, placeholders, platform),
            StringOrList::Multiple(ts) => {
                let r = resolved_args(
                    before.push(ArgumentEntry::Conditional(c)) + after,
                    features,
                    placeholders,
                    platform,
                );
                let n = resolved_args(before, features, placeholders, platform).len();
                &&& r.len() == n + ts@.len() + resolved_args(after, features, placeholders, platform).len()
                &&& r.subrange(0, n as int) == resolved_args(before, features, placeholders, platform)
                &&& forall|k: int| 0 <= k < ts@.len() ==> r[n + k] == substituted(ts@[k]@, placeholders)
                &&& r.subrange((n + ts@.len()) as int, r.len() as int) == resolved_args(after, features, placeholders, platform)
            },
        },
{
    let e = ArgumentEntry::Conditional(c);
    let whole = before.push(e);
    lemma_resolved_args_concat(whole, after, features, placeholders, platform);
    assert(whole.drop_last() =~= before);
    let rb = resolved_args(before, features, placeholders, platform);
    let ra = resolved_args(after, features, placeholders, platform);
    if !rules_admit(c.rules@, features, platform) {
        assert(rb + seq![] =~= rb);
    } else {
        match c.value {
            StringOrList::Single(t) => {
                assert(rb + seq![substituted(t@, placeholders)] =~= rb.push(substituted(t@, placeholders)));
            },
            StringOrList::Multiple(ts) => {
                let m = substituted_all(views(ts@), placeholders);
                let r = rb + m + ra;
                assert(r.subrange(0, rb.len() as int) =~= rb);
                assert(r.subrange((rb.len() + ts@.len()) as int, r.len() as int) =~= ra);
                assert forall|k: int| 0 <= k < ts@.len() implies r[rb.len() + k] == substituted(
                    ts@[k]@,
                    placeholders,
                ) by {
                    assert(views(ts@)[k] == ts@[k]@);
                }
            },
        }
    }
}

/// The token `${key}` as a string.
pub fn placeholder_needle(key: &str) -> (r: String)
    ensures
        r@ == needle_of(key@),
{
    let r = concat3("${", key, "}");
    proof {
        reveal_strlit("${");
        reveal_strlit("}");
    }
    assert(r@ =~= needle_of(key@));
    r
}

/// Replaces every `${key}` token of `template` by its value, placeholder
/// by placeholder.
pub fn substitute(template: &str, placeholders: &[Placeholder]) -> (r: String)
    ensures
        r@ == substituted(template@, placeholders@),
{
    let mut result = crate::text::owned(template);
    let mut i: usize = 0;
    assert(placeholders@.take(0) =~= Seq::<Placeholder>::empty());
    while i < placeholders.len()
        invariant
            0 <= i <= placeholders.len(),
            result@ == substituted(template@, placeholders@.take(i as int)),
        decreases placeholders.len() - i,
    {
        let needle = placeholder_needle(placeholders[i].key.as_str());
        result = replace(result.as_str(), needle.as_str(), placeholders[i].value.as_str());
        assert(placeholders@.take(i + 1).drop_last() =~= placeholders@.take(i as int));
        i = i + 1;
    }
    assert(placeholders@.take(placeholders.len() as int) =~= placeholders@);
    result
}

/// Appends every template of `templates`, substituted, to `out`.
fn push_substituted(out: &mut Vec<String>, templates: &Vec<String>, placeholders: &[Placeholder])
    ensures
        views(final(out)@) == views(old(out)@) + substituted_all(views(templates@), placeholders@),
{
    let mut i: usize = 0;
    while i < templates.len()
        invariant
            0 <= i <= templates.len(),
            views(out@) == views(old(out)@) + substituted_all(
                views(templates@.take(i as int)),
                placeholders@,
            ),
        decreases templates.len() - i,
    {
        let s = substitute(templates[i].as_str(), placeholders);
        let ghost before = out@;
        out.push(s);
        assert(views(out@) =~= views(before).push(s@));
        assert(views(templates@.take(i + 1)) =~= views(templates@.take(i as int)).push(
            templates@[i as int]@,
        ));
        assert(substituted_all(views(templates@.take(i + 1)), placeholders@) =~= substituted_all(
            views(templates@.take(i as int)),
            placeholders@,
        ).push(s@));
        assert(views(out@) =~= views(old(out)@) + substituted_all(
            views(templates@.take(i + 1)),
            placeholders@,
        ));
        i = i + 1;
    }
    assert(templates@.take(templates.len() as int) =~= templates@);
}

/// Expands a `game`/`jvm` argument list into final process arguments:
/// conditional entries are evaluated against `features` on `platform` and
/// dropped when their rules do not admit it, and every `${placeholder}`
/// token is substituted.
pub fn resolve_arguments(
    entries: &[ArgumentEntry],
    features: &FeatureFlags,
    placeholders: &[Placeholder],
    platform: &Platform,
) -> (r: Vec<String>)
    ensures
        views(r@) == resolved_args(entries@, features@, placeholders@, *platform),
{
    let mut resolved: Vec<String> = Vec::new();
    let mut i: usize = 0;
    assert(entries@.take(0) =~= Seq::<ArgumentEntry>::empty());
    while i < entries.len()
        invariant
            0 <= i <= entries.len(),
            views(resolved@) == resolved_args(
                entries@.take(i as int),
                features@,
                placeholders@,
                *platform,
            ),
        decreases entries.len() - i,
    {
        let ghost before = resolved@;
        match &entries[i] {
            ArgumentEntry::Plain(template) => {
                let s = substitute(template.as_str(), placeholders);
                resolved.push(s);
                assert(views(resolved@) =~= views(before).push(s@));
            },
            ArgumentEntry::Conditional(cond) => {
                if rules_allow(cond.rules.as_slice(), features, platform) {
                    match &cond.value {
                        StringOrList::Single(template) => {
                            let s = substitute(template.as_str(), placeholders);
                            resolved.push(s);
                            assert(views(resolved@) =~= views(before).push(s@));
                        },
                        StringOrList::Multiple(templates) => {
                            push_substituted(&mut resolved, templates, placeholders);
                        },
                    }
                } else {
                    assert(views(resolved@) =~= views(before) + Seq::<Seq<char>>::empty());
                }
            },
        }
        assert(entries@.take(i + 1).drop_last() =~= entries@.take(i as int));
        i = i + 1;
    }
    assert(entries@.take(entries.len() as int) =~= entries@);
    resolved
}

/// Expands a pre-1.13 flat argument string: split at whitespace, then each
/// token substituted.
pub fn resolve_legacy_game_arguments(raw: &str, placeholders: &[Placeholder]) -> (r: Vec<String>)
    ensures
        views(r@) == substituted_all(split_ws(raw@), placeholders@),
{
    let tokens = split_whitespace(raw);
    let mut out: Vec<String> = Vec::new();
    push_substituted(&mut out, &tokens, placeholders);
    assert(views(out@) =~= substituted_all(split_ws(raw@), placeholders@));
    out
}

} // verus!
