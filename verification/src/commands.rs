//! The decisions behind the app's commands: validating a new instance,
//! reading ids, list orderings, turning a stored instance into a launch
//! request, event channel names, the version-manifest cache, and the
//! listing of an instance's mod files.
use vstd::prelude::*;

use crate::database::{DatabaseError, Instance, InstanceDraft, InstanceSort, Timestamp, database_error_message, parsed_loader};
use crate::ids::{Uuid, hyphenated_form};
use crate::launch::{GameAccount, LaunchRequest, LaunchStage, offline_token, offline_uuid_bytes};
use crate::text::{
    chars_of,
    concat2,
    concat3,
    eq_ignore_ascii_case,
    eq_ignore_case_exec,
    owned,
    split_whitespace,
    split_ws,
    string_of_range,
    trim,
    trim_string,
    views,
};

verus! {

/// A new-instance request as the UI sends it: the loader as plain text.
#[derive(Debug, Clone)]
pub struct CreateInstanceRequest {
    pub name: String,
    pub loader: String,
    pub loader_version: Option<String>,
    pub minecraft_version: String,
    pub icon: Option<String>,
}

/// Turns a request into a draft: the loader must be a known name (else the
/// loader error's message), the name must not be blank (else `Instance
/// name cannot be empty.`) and is stored trimmed.
pub fn draft_from_request(request: CreateInstanceRequest) -> (r: Result<InstanceDraft, String>)
    ensures
        parsed_loader(request.loader@) is None ==> (r matches Err(m) && m@ == database_error_message(
            DatabaseError::InvalidLoader(request.loader),
        )),
        parsed_loader(request.loader@) is Some && trim(request.name@).len() == 0 ==> (r matches Err(m)
            && m@ == "Instance name cannot be empty."@),
        parsed_loader(request.loader@) is Some && trim(request.name@).len() > 0 ==> (r matches Ok(d)
            && d.name@ == trim(request.name@) && d.loader == parsed_loader(request.loader@)->0
            && d.loader_version == request.loader_version && d.minecraft_version
            == request.minecraft_version && d.icon == request.icon),
{
    let loader = match crate::database::Loader::from_str(request.loader.as_str()) {
        Ok(l) => l,
        Err(e) => {
            return Err(e.message());
        },
    };
    let name = trim_string(request.name.as_str());
    if chars_of(name.as_str()).len() == 0 {
        return Err(owned("Instance name cannot be empty."));
    }
    Ok(
        InstanceDraft {
            name,
            loader,
            loader_version: request.loader_version,
            minecraft_version: request.minecraft_version,
            icon: request.icon,
        },
    )
}

/// A list ordering as the UI names it.
#[derive(Debug, Clone, Copy, PartialEq, Eq, Structural)]
pub enum InstanceSortRequest {
    RecentlyPlayed,
    NameAscending,
    NameDescending,
    FavoritesFirst,
}

/// The ordering a request names.
pub open spec fn sort_of_request(r: InstanceSortRequest) -> InstanceSort {
    match r {
        InstanceSortRequest::RecentlyPlayed => InstanceSort::RecentlyPlayed,
        InstanceSortRequest::NameAscending => InstanceSort::NameAscending,
        InstanceSortRequest::NameDescending => InstanceSort::NameDescending,
        InstanceSortRequest::FavoritesFirst => InstanceSort::FavoritesFirst,
    }
}

impl From<InstanceSortRequest> for InstanceSort {
    fn from(value: InstanceSortRequest) -> (r: InstanceSort) {
        match value {
            InstanceSortRequest::RecentlyPlayed => InstanceSort::RecentlyPlayed,
            InstanceSortRequest::NameAscending => InstanceSort::NameAscending,
            InstanceSortRequest::NameDescending => InstanceSort::NameDescending,
            InstanceSortRequest::FavoritesFirst => InstanceSort::FavoritesFirst,
        }
    }
}

impl vstd::std_specs::convert::FromSpecImpl<InstanceSortRequest> for InstanceSort {
    open spec fn obeys_from_spec() -> bool {
        true
    }

    open spec fn from_spec(v: InstanceSortRequest) -> InstanceSort {
        sort_of_request(v)
    }
}

/// The ordering to list with: the requested one, by default most recently
/// played first.
pub fn sort_for(request: Option<InstanceSortRequest>) -> (r: InstanceSort)
    ensures
        r == match request {
            Some(s) => sort_of_request(s),
            None => InstanceSort::RecentlyPlayed,
        },
{
    match request {
        Some(s) => InstanceSort::from(s),
        None => InstanceSort::default(),
    }
}

/// The message for text that is not an instance id.
pub open spec fn invalid_id_message(raw: Seq<char>) -> Seq<char> {
    "'"@ + raw + "' is not a valid instance id."@
}

/// Reads an instance id in any form the `uuid` crate accepts.
pub fn parse_instance_id(raw: &str) -> (r: Result<Uuid, String>)
    ensures
        match crate::ext::uuid_parse_of(raw@) {
            Some(b) => r matches Ok(u) && u.bytes@ == b,
            None => r matches Err(m) && m@ == invalid_id_message(raw@),
        },
{
    match Uuid::parse_str(raw) {
        Some(u) => Ok(u),
        None => Err(concat3("'", raw, "' is not a valid instance id.")),
    }
}

/// `launch:<instance-id>`: the event channel of one instance's launch.
pub fn event_channel_name(instance_id: Uuid) -> (r: String)
    ensures
        r@ == "launch:"@ + hyphenated_form(instance_id.bytes@),
{
    concat2("launch:", instance_id.to_hyphenated_string().as_str())
}

/// The name the UI knows a launch stage by.
pub open spec fn stage_name_of(s: LaunchStage) -> Seq<char> {
    match s {
        LaunchStage::ResolvingVersion => "resolving_version"@,
        LaunchStage::DownloadingFiles => "downloading_files"@,
        LaunchStage::InstallingJava => "installing_java"@,
        LaunchStage::ExtractingNatives => "extracting_natives"@,
        LaunchStage::Starting => "starting"@,
    }
}

/// The name of a launch stage.
pub fn stage_name(stage: LaunchStage) -> (r: &'static str)
    ensures
        r@ == stage_name_of(stage),
{
    match stage {
        LaunchStage::ResolvingVersion => "resolving_version",
        LaunchStage::DownloadingFiles => "downloading_files",
        LaunchStage::InstallingJava => "installing_java",
        LaunchStage::ExtractingNatives => "extracting_natives",
        LaunchStage::Starting => "starting",
    }
}

/// The whitespace-separated words of an optional setting (none when it is
/// absent).
pub open spec fn args_of(raw: Option<String>) -> Seq<Seq<char>> {
    match raw {
        Some(s) => split_ws(s@),
        None => seq![],
    }
}

/// Splits a stored argument string at whitespace.
pub fn split_args(raw: &Option<String>) -> (r: Vec<String>)
    ensures
        views(r@) == args_of(*raw),
{
    match raw {
        Some(s) => split_whitespace(s.as_str()),
        None => {
            let v: Vec<String> = Vec::new();
            assert(views(v@) =~= Seq::<Seq<char>>::empty());
            v
        },
    }
}

/// The launcher's loader for a stored one (the two modules each keep their
/// own enum).
pub fn to_minecraft_loader(loader: crate::database::Loader) -> (r: crate::launch::Loader)
    ensures
        loader == crate::database::Loader::Vanilla <==> r == crate::launch::Loader::Vanilla,
        loader == crate::database::Loader::Fabric <==> r == crate::launch::Loader::Fabric,
{
    match loader {
        crate::database::Loader::Vanilla => crate::launch::Loader::Vanilla,
        crate::database::Loader::Fabric => crate::launch::Loader::Fabric,
    }
}

/// Whether a launch may start, checked before the instance is looked up:
/// refused while the instance runs (`This instance is already running.`)
/// or when the name is blank (`Enter a username before launching in
/// offline mode.`).
pub fn check_launch_allowed(account_username: &str, already_running: bool) -> (r: Result<(), String>)
    ensures
        already_running ==> (r matches Err(m) && m@ == "This instance is already running."@),
        !already_running && trim(account_username@).len() == 0 ==> (r matches Err(m) && m@
            == "Enter a username before launching in offline mode."@),
        !already_running && trim(account_username@).len() > 0 ==> r is Ok,
{
    if already_running {
        return Err(owned("This instance is already running."));
    }
    let name = trim_string(account_username);
    if chars_of(name.as_str()).len() == 0 {
        return Err(owned("Enter a username before launching in offline mode."));
    }
    Ok(())
}

/// The launch request for an instance played offline as
/// `account_username`: refused while the instance runs (`This instance is
/// already running.`) or when the name is blank (`Enter a username before
/// launching in offline mode.`); otherwise the instance's settings with
/// its argument strings split, and an offline account for the trimmed
/// name.
pub fn launch_request_for(instance: &Instance, account_username: &str, already_running: bool) -> (r:
    Result<LaunchRequest, String>)
    ensures
        already_running ==> (r matches Err(m) && m@ == "This instance is already running."@),
        !already_running && trim(account_username@).len() == 0 ==> (r matches Err(m) && m@
            == "Enter a username before launching in offline mode."@),
        !already_running && trim(account_username@).len() > 0 ==> (r matches Ok(q) && q.instance_id
            == instance.id && q.minecraft_version@ == instance.minecraft_version@ && (q.loader
            == crate::launch::Loader::Fabric <==> instance.loader == crate::database::Loader::Fabric)
            && q.loader_version == instance.loader_version && q.account.username@ == trim(
            account_username@,
        ) && q.account.uuid.bytes@ == offline_uuid_bytes(trim(account_username@))
            && q.account.access_token@ == offline_token() && q.account.account_type
            == crate::launch::AccountType::Offline && q.java_override == instance.java_path
            && views(q.extra_java_args@) == args_of(instance.java_args) && views(
            q.extra_game_args@,
        ) == args_of(instance.game_args) && q.memory_min_mb == instance.memory_min_mb
            && q.memory_max_mb == instance.memory_max_mb && q.window_width == instance.window_width
            && q.window_height == instance.window_height && q.fullscreen == instance.fullscreen),
{
    match check_launch_allowed(account_username, already_running) {
        Err(m) => {
            return Err(m);
        },
        Ok(()) => {},
    }
    let name = trim_string(account_username);
    Ok(
        LaunchRequest {
            instance_id: instance.id,
            minecraft_version: instance.minecraft_version.clone(),
            loader: to_minecraft_loader(instance.loader),
            loader_version: instance.loader_version.clone(),
            account: GameAccount::offline(name.as_str()),
            java_override: instance.java_path.clone(),
            extra_java_args: split_args(&instance.java_args),
            extra_game_args: split_args(&instance.game_args),
            memory_min_mb: instance.memory_min_mb,
            memory_max_mb: instance.memory_max_mb,
            window_width: instance.window_width,
            window_height: instance.window_height,
            fullscreen: instance.fullscreen,
        },
    )
}

// ─── Version manifest cache ──────────────────────────────────────────────────

/// The settings key under which the version manifest is cached.
pub const MANIFEST_CACHE_KEY: &'static str = "version_manifest_cache";

/// How long a cached version manifest is served without refetching.
pub const MANIFEST_CACHE_TTL_SECONDS: i64 = 60 * 60;

/// The whole seconds from `from` to `to`, rounded toward zero.
pub open spec fn elapsed_seconds(from: Timestamp, to: Timestamp) -> int {
    let d = (to.secs - from.secs) * 1_000_000_000 + to.nanos - from.nanos;
    if d >= 0 {
        d / 1_000_000_000
    } else {
        -((-d) / 1_000_000_000)
    }
}

/// Whether a manifest cached at `fetched_at` is still fresh at `now`:
/// younger than an hour (a cache from the future counts as fresh).
pub fn manifest_cache_fresh(fetched_at: Timestamp, now: Timestamp) -> (r: bool)
    ensures
        r == (elapsed_seconds(fetched_at, now) < MANIFEST_CACHE_TTL_SECONDS),
{
    let d: i128 = (now.secs as i128 - fetched_at.secs as i128) * 1_000_000_000i128 + now.nanos as i128
        - fetched_at.nanos as i128;
    let secs: i128 = if d >= 0 {
        d / 1_000_000_000i128
    } else {
        -((-d) / 1_000_000_000i128)
    };
    secs < 3600
}

/// Whether a cached copy exists and is fresh at `now`.
pub open spec fn cache_fresh_at(cached_at: Option<Timestamp>, now: Timestamp) -> bool {
    match cached_at {
        Some(t) => elapsed_seconds(t, now) < MANIFEST_CACHE_TTL_SECONDS,
        None => false,
    }
}

/// Whether to answer from the cache without fetching: unless a refresh is
/// forced, when a cached copy exists and is fresh.
pub fn serve_cached_manifest(force_refresh: Option<bool>, cached_at: Option<Timestamp>, now: Timestamp) -> (r:
    bool)
    ensures
        r == (!(force_refresh == Some(true)) && cache_fresh_at(cached_at, now)),
{
    let forced = match force_refresh {
        Some(b) => b,
        None => false,
    };
    if forced {
        return false;
    }
    match cached_at {
        Some(t) => manifest_cache_fresh(t, now),
        None => false,
    }
}

/// The Fabric loader listing needs a game version: a blank one is refused.
pub fn require_game_version(game_version: &str) -> (r: Result<(), String>)
    ensures
        trim(game_version@).len() == 0 ==> (r matches Err(m) && m@
            == "A Minecraft version is required to list Fabric loader builds."@),
        trim(game_version@).len() > 0 ==> r is Ok,
{
    if crate::text::is_blank(game_version) {
        Err(owned("A Minecraft version is required to list Fabric loader builds."))
    } else {
        Ok(())
    }
}

// ─── Mod files ───────────────────────────────────────────────────────────────

/// One `.jar` in an instance's `mods` folder.
#[derive(Debug, Clone)]
pub struct ModFileInfo {
    pub file_name: String,
    pub size_bytes: u64,
    /// RFC 3339 modification time, when the filesystem reports one.
    pub modified_at: Option<String>,
}

/// The extension of a file name (what `Path::extension` gives): the part
/// after the last `.`, unless there is none or it is the leading one.
pub open spec fn extension_of(name: Seq<char>) -> Option<Seq<char>>
    decreases name.len(),
{
    if name.len() == 0 {
        None
    } else if name.last() == '.' {
        if name.len() == 1 {
            None
        } else {
            Some(seq![])
        }
    } else {
        match extension_of(name.drop_last()) {
            Some(e) => Some(e.push(name.last())),
            None => None,
        }
    }
}

/// Whether a file name has the extension `jar`, in any letter case.
pub open spec fn is_jar_name(name: Seq<char>) -> bool {
    extension_of(name) matches Some(e) && eq_ignore_ascii_case(e, "jar"@)
}

/// Whether a file name ends in `.jar` (any letter case) as its extension.
pub fn has_jar_extension(file_name: &str) -> (r: bool)
    ensures
        r == is_jar_name(file_name@),
{
    let c = chars_of(file_name);
    let mut i: usize = c.len();
    let ghost s = c@;
    assert(s.take(s.len() as int) =~= s);
    assert(s.subrange(s.len() as int, s.len() as int) =~= Seq::<char>::empty());
    proof {
        match extension_of(s) {
            Some(e) => {
                assert(e + Seq::<char>::empty() =~= e);
            },
            None => {},
        }
    }
    while i > 0 && c[i - 1] != '.'
        invariant
            c@ == s,
            s == file_name@,
            i <= c.len(),
            forall|k: int| i <= k < c.len() ==> c@[k] != '.',
            extension_of(s) == match extension_of(s.take(i as int)) {
                Some(e) => Some(e + s.subrange(i as int, s.len() as int)),
                None => None,
            },
        decreases i,
    {
        proof {
            let t = s.take(i as int);
            assert(t.drop_last() =~= s.take(i - 1));
            assert(t.last() == s[i - 1]);
            match extension_of(s.take(i - 1)) {
                Some(e) => {
                    assert(e.push(s[i - 1]) + s.subrange(i as int, s.len() as int) =~= e + s.subrange(
                        i - 1,
                        s.len() as int,
                    ));
                },
                None => {},
            }
        }
        i = i - 1;
    }
    if i <= 1 {
        proof {
            if i == 0 {
                assert(s.take(0).len() == 0);
            } else {
                assert(s.take(1).last() == '.');
            }
        }
        return false;
    }
    proof {
        assert(s.take(i as int).last() == '.');
        assert(Seq::<char>::empty() + s.subrange(i as int, s.len() as int) =~= s.subrange(
            i as int,
            s.len() as int,
        ));
    }
    let ext = string_of_range(&c, i, c.len());
    eq_ignore_case_exec(ext.as_str(), "jar")
}

/// What `str::to_lowercase` gives for `s` (full Unicode case mapping).
pub uninterp spec fn lowercase_of(s: Seq<char>) -> Seq<char>;

/// Calls `str::to_lowercase`. Trusted: the result is the named lower-case
/// form of `s`; nothing more of Unicode case mapping is stated.
#[verifier::external_body]
fn to_lowercase(s: &str) -> (r: String)
    ensures
        r@ == lowercase_of(s@),
{
    s.to_lowercase()
}

/// Strict lexicographic order on character strings (the order of `String`,
/// since UTF-8 keeps code-point order).
pub open spec fn lex_lt(a: Seq<char>, b: Seq<char>) -> bool
    decreases a.len(),
{
    if a.len() == 0 {
        b.len() > 0
    } else if b.len() == 0 {
        false
    } else if a[0] != b[0] {
        (a[0] as u32) < (b[0] as u32)
    } else {
        lex_lt(a.drop_first(), b.drop_first())
    }
}

/// Lexicographic order is a strict order: irreflexive, asymmetric,
/// transitive.
pub proof fn lemma_lex_lt_strict_order(a: Seq<char>, b: Seq<char>, c: Seq<char>)
    ensures
        !lex_lt(a, a),
        lex_lt(a, b) ==> !lex_lt(b, a),
        lex_lt(a, b) && lex_lt(b, c) ==> lex_lt(a, c),
    decreases a.len(),
{
    if a.len() > 0 && b.len() > 0 && c.len() > 0 {
        lemma_lex_lt_strict_order(a.drop_first(), b.drop_first(), c.drop_first());
    }
    if a.len() > 0 {
        lemma_lex_lt_strict_order(a.drop_first(), a.drop_first(), a.drop_first());
    }
    if a.len() > 0 && b.len() > 0 {
        lemma_lex_lt_strict_order(a.drop_first(), b.drop_first(), b.drop_first());
    }
}

/// Whether `a` comes strictly before `b`.
fn lex_less(a: &Vec<char>, b: &Vec<char>) -> (r: bool)
    ensures
        r == lex_lt(a@, b@),
{
    let mut i: usize = 0;
    assert(a@.skip(0) =~= a@);
    assert(b@.skip(0) =~= b@);
    while i < a.len() && i < b.len() && a[i] == b[i]
        invariant
            i <= a.len(),
            i <= b.len(),
            lex_lt(a@, b@) == lex_lt(a@.skip(i as int), b@.skip(i as int)),
        decreases a.len() - i,
    {
        assert(a@.skip(i as int).drop_first() =~= a@.skip(i + 1));
        assert(b@.skip(i as int).drop_first() =~= b@.skip(i + 1));
        i = i + 1;
    }
    if i == a.len() {
        i < b.len()
    } else if i == b.len() {
        false
    } else {
        (a[i] as u32) < (b[i] as u32)
    }
}

/// The sort key of a mod file: its lower-cased name.
pub open spec fn mod_key(m: ModFileInfo) -> Seq<char> {
    lowercase_of(m.file_name@)
}

/// Whether mod files are in order of their lower-cased names.
pub open spec fn mods_sorted(s: Seq<ModFileInfo>) -> bool {
    forall|i: int| 0 <= i < s.len() - 1 ==> !lex_lt(mod_key(#[trigger] s[i + 1]), mod_key(s[i]))
}

/// Lexicographic order is total: of two distinct strings, one comes first.
pub proof fn lemma_lex_lt_total(a: Seq<char>, b: Seq<char>)
    ensures
        lex_lt(a, b) || a == b || lex_lt(b, a),
    decreases a.len(),
{
    if a.len() > 0 && b.len() > 0 {
        if a[0] != b[0] {
            vstd::utf8::char_u32_cast(a[0], a[0] as u32);
            vstd::utf8::char_u32_cast(b[0], b[0] as u32);
        } else {
            lemma_lex_lt_total(a.drop_first(), b.drop_first());
            if a.drop_first() == b.drop_first() {
                assert(a =~= seq![a[0]] + a.drop_first());
                assert(b =~= seq![b[0]] + b.drop_first());
            }
        }
    } else if a.len() == 0 && b.len() == 0 {
        assert(a =~= b);
    }
}

/// The mod files of `s` whose sort key is `k`, in their order in `s`.
pub open spec fn with_key(s: Seq<ModFileInfo>, k: Seq<char>) -> Seq<ModFileInfo>
    decreases s.len(),
{
    if s.len() == 0 {
        s
    } else if mod_key(s.last()) == k {
        with_key(s.drop_last(), k).push(s.last())
    } else {
        with_key(s.drop_last(), k)
    }
}

/// Picking the files of one key distributes over concatenation.
proof fn lemma_with_key_add(a: Seq<ModFileInfo>, b: Seq<ModFileInfo>, k: Seq<char>)
    ensures
        with_key(a + b, k) == with_key(a, k) + with_key(b, k),
    decreases b.len(),
{
    if b.len() == 0 {
        assert(a + b =~= a);
        assert(with_key(a, k) + with_key(b, k) =~= with_key(a, k));
    } else {
        assert((a + b).drop_last() =~= a + b.drop_last());
        assert((a + b).last() == b.last());
        lemma_with_key_add(a, b.drop_last(), k);
        if mod_key(b.last()) == k {
            assert((with_key(a, k) + with_key(b.drop_last(), k)).push(b.last()) =~= with_key(a, k)
                + with_key(b.drop_last(), k).push(b.last()));
        }
    }
}

/// A sequence with no file of key `k` has none to pick.
proof fn lemma_with_key_none(s: Seq<ModFileInfo>, k: Seq<char>)
    requires
        forall|i: int| 0 <= i < s.len() ==> mod_key(#[trigger] s[i]) != k,
    ensures
        with_key(s, k) == Seq::<ModFileInfo>::empty(),
    decreases s.len(),
{
    if s.len() > 0 {
        assert(mod_key(s[s.len() - 1]) != k);
        lemma_with_key_none(s.drop_last(), k);
    } else {
        assert(s =~= Seq::<ModFileInfo>::empty());
    }
}

/// Orders mod files by lower-cased name, keeping every file; files whose
/// names compare equal keep their order (a stable sort).
pub fn sort_mods_by_name(mods: Vec<ModFileInfo>) -> (r: Vec<ModFileInfo>)
    ensures
        mods_sorted(r@),
        r@.to_multiset() == mods@.to_multiset(),
        forall|k: Seq<char>| #[trigger] with_key(r@, k) == with_key(mods@, k),
{
    broadcast use vstd::seq_lib::group_to_multiset_ensures;

    let ghost orig = mods@;
    let mut rest = mods;
    let mut keys: Vec<Vec<char>> = Vec::new();
    let mut i: usize = 0;
    while i < rest.len()
        invariant
            0 <= i <= rest.len(),
            keys@.len() == i,
            forall|k: int| 0 <= k < i ==> (#[trigger] keys@[k])@ == mod_key(rest@[k]),
        decreases rest.len() - i,
    {
        let k = chars_of(to_lowercase(rest[i].file_name.as_str()).as_str());
        keys.push(k);
        i = i + 1;
    }
    let mut out: Vec<ModFileInfo> = Vec::new();
    assert(out@.to_multiset().add(rest@.to_multiset()) =~= orig.to_multiset());
    assert forall|k: Seq<char>| #[trigger] with_key(orig, k) == with_key(out@, k) + with_key(rest@, k) by {
        assert(with_key(out@, k) + with_key(rest@, k) =~= with_key(rest@, k));
    }
    while rest.len() > 0
        invariant
            forall|k: Seq<char>| #[trigger] with_key(orig, k) == with_key(out@, k) + with_key(rest@, k),
            keys@.len() == rest@.len(),
            forall|k: int| 0 <= k < rest@.len() ==> (#[trigger] keys@[k])@ == mod_key(rest@[k]),
            out@.to_multiset().add(rest@.to_multiset()) == orig.to_multiset(),
            mods_sorted(out@),
            out@.len() > 0 ==> forall|k: int|
                0 <= k < rest@.len() ==> !lex_lt(mod_key(#[trigger] rest@[k]), mod_key(out@.last())),
        decreases rest@.len(),
    {
        let mut m: usize = 0;
        let mut j: usize = 1;
        proof {
            lemma_lex_lt_strict_order(mod_key(rest@[0]), mod_key(rest@[0]), mod_key(rest@[0]));
        }
        while j < rest.len()
            invariant
                keys@.len() == rest@.len(),
                forall|k: int| 0 <= k < rest@.len() ==> (#[trigger] keys@[k])@ == mod_key(rest@[k]),
                0 <= m < j <= rest@.len(),
                forall|k: int| 0 <= k < j ==> !lex_lt(mod_key(#[trigger] rest@[k]), mod_key(rest@[m as int])),
                forall|k: int| 0 <= k < m ==> lex_lt(mod_key(rest@[m as int]), mod_key(#[trigger] rest@[k])),
            decreases rest@.len() - j,
        {
            if lex_less(&keys[j], &keys[m]) {
                proof {
                    assert forall|k: int| 0 <= k < j implies lex_lt(
                        mod_key(rest@[j as int]),
                        mod_key(#[trigger] rest@[k]),
                    ) by {
                        lemma_lex_lt_total(mod_key(rest@[k]), mod_key(rest@[m as int]));
                        lemma_lex_lt_strict_order(
                            mod_key(rest@[j as int]),
                            mod_key(rest@[m as int]),
                            mod_key(rest@[k]),
                        );
                    }
                    assert forall|k: int| 0 <= k < j implies !lex_lt(
                        mod_key(#[trigger] rest@[k]),
                        mod_key(rest@[j as int]),
                    ) by {
                        lemma_lex_lt_strict_order(
                            mod_key(rest@[k]),
                            mod_key(rest@[j as int]),
                            mod_key(rest@[m as int]),
                        );
                    }
                    lemma_lex_lt_strict_order(
                        mod_key(rest@[j as int]),
                        mod_key(rest@[j as int]),
                        mod_key(rest@[j as int]),
                    );
                }
                m = j;
            }
            j = j + 1;
        }
        let ghost before_rest = rest@;
        let ghost before_out = out@;
        let ghost picked = rest@[m as int];
        let x = rest.remove(m);
        let _ = keys.remove(m);
        out.push(x);
        proof {
            let pre = before_rest.subrange(0, m as int);
            let post = before_rest.subrange(m + 1, before_rest.len() as int);
            assert(before_rest =~= pre + seq![picked] + post);
            assert(rest@ =~= pre + post);
            assert(out@ =~= before_out + seq![picked]);
            assert forall|k: Seq<char>| #[trigger] with_key(orig, k) == with_key(out@, k) + with_key(rest@, k) by {
                lemma_with_key_add(pre + seq![picked], post, k);
                lemma_with_key_add(pre, seq![picked], k);
                lemma_with_key_add(pre, post, k);
                lemma_with_key_add(before_out, seq![picked], k);
                if k == mod_key(picked) {
                    assert forall|i: int| 0 <= i < pre.len() implies mod_key(#[trigger] pre[i]) != k by {
                        lemma_lex_lt_strict_order(mod_key(picked), mod_key(picked), mod_key(picked));
                        assert(pre[i] == before_rest[i]);
                    }
                    lemma_with_key_none(pre, k);
                } else {
                    lemma_with_key_none(seq![picked], k);
                }
                assert(with_key(out@, k) + with_key(rest@, k) =~= with_key(before_out, k) + with_key(
                    before_rest,
                    k,
                ));
            }
            vstd::seq_lib::to_multiset_remove(before_rest, m as int);
            assert(before_rest.remove(m as int).to_multiset() == before_rest.to_multiset().remove(picked));
            assert(out@ == before_out.push(picked));
            vstd::seq_lib::to_multiset_build(before_out, picked);
            assert(out@.to_multiset() == before_out.to_multiset().insert(picked));
            assert(before_rest.to_multiset().count(picked) > 0) by {
                assert(before_rest[m as int] == picked);
                assert(before_rest.contains(picked));
                before_rest.to_multiset_ensures();
            }
            assert(out@.to_multiset().add(rest@.to_multiset()) =~= orig.to_multiset());
            assert forall|i: int| 0 <= i < out@.len() - 1 implies !lex_lt(
                mod_key(#[trigger] out@[i + 1]),
                mod_key(out@[i]),
            ) by {
                if i + 1 == out@.len() - 1 {
                    assert(out@[i + 1] == picked);
                    assert(out@[i] == before_out.last());
                    assert(before_rest[m as int] == picked);
                } else {
                    assert(out@[i + 1] == before_out[i + 1]);
                    assert(out@[i] == before_out[i]);
                }
            }
            assert forall|k: int| 0 <= k < rest@.len() implies !lex_lt(
                mod_key(#[trigger] rest@[k]),
                mod_key(out@.last()),
            ) by {
                if k < m {
                    assert(rest@[k] == before_rest[k]);
                } else {
                    assert(rest@[k] == before_rest[k + 1]);
                }
            }
        }
    }
    assert(rest@.to_multiset() =~= vstd::multiset::Multiset::<ModFileInfo>::empty());
    assert(out@.to_multiset() =~= orig.to_multiset());
    assert forall|k: Seq<char>| #[trigger] with_key(out@, k) == with_key(orig, k) by {
        assert(with_key(rest@, k) =~= Seq::<ModFileInfo>::empty());
        assert(with_key(out@, k) + with_key(rest@, k) =~= with_key(out@, k));
    }
    out
}

} // verus!
