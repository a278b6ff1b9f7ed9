//! Launching: accounts and their offline identifiers, the launch request,
//! the `${placeholder}` table, the JVM and game command lines, the batch of
//! files a launch must have on disk, the classpath, and the
//! `options.txt` fullscreen preference.
use vstd::prelude::*;
use vstd::string::StringSliceAdditionalSpecFns;

use crate::assets::{AssetIndex, asset_tasks, build_asset_download_tasks, prefixes_cut};
use crate::downloads::{DownloadTask, TaskView, task_views};
use crate::error::MinecraftError;
use crate::ext::{md5_digest, md5_of};
use crate::ids::{Uuid, simple_form};
use crate::libraries::{NativeJar, ResolvedLibraries, ResolvedView, copy_strings};
use crate::os_match::{FeatureFlags, Platform};
use crate::paths::{LauncherPaths, assets_dir_of, instance_game_dir_of, join_path, path_join, versions_dir_of};
use crate::text::{
    chars_of,
    concat2,
    concat3,
    decimal,
    decimal_string,
    lemma_split_on_pieces,
    owned,
    push_char,
    replace_all,
    split_on,
    split_on_char,
    split_ws,
    starts_with,
    str_eq,
    string_of_range,
    trim,
    trim_string,
    views,
};
use crate::version_detail::{
    Placeholder,
    VersionDetail,
    needle_of,
    resolve_arguments,
    resolve_legacy_game_arguments,
    resolved_args,
    substitute,
    substituted,
    substituted_all,
};

verus! {

broadcast use vstd::array::group_array_axioms;

/// Which kind of account is launching.
#[derive(Debug, Clone, Copy, PartialEq, Eq, Structural)]
pub enum AccountType {
    Offline,
    Microsoft,
}

/// The `${user_type}` value of an account type.
pub open spec fn user_type_of(t: AccountType) -> Seq<char> {
    match t {
        AccountType::Offline => "legacy"@,
        AccountType::Microsoft => "msa"@,
    }
}

impl AccountType {
    /// `legacy` for offline accounts, `msa` for Microsoft ones.
    pub fn as_user_type_arg(&self) -> (r: &'static str)
        ensures
            r@ == user_type_of(*self),
    {
        match self {
            AccountType::Offline => "legacy",
            AccountType::Microsoft => "msa",
        }
    }
}

/// The account a game is launched with.
#[derive(Debug, Clone)]
pub struct GameAccount {
    pub username: String,
    pub uuid: Uuid,
    pub access_token: String,
    pub account_type: AccountType,
}

/// The bytes hashed to derive an offline player's identifier: the UTF-8
/// encoding of `OfflinePlayer:<name>`.
pub open spec fn offline_name_bytes(username: Seq<char>) -> Seq<u8> {
    vstd::utf8::encode_utf8("OfflinePlayer:"@ + username)
}

/// A name-based (version 3) identifier from a 16-byte MD5 digest: the
/// version nibble set to 3 and the RFC 4122 variant bits set, as Java's
/// `UUID.nameUUIDFromBytes` does.
pub open spec fn name_uuid_bytes(d: Seq<u8>) -> Seq<u8> {
    d.update(6, (d[6] & 0x0F) | 0x30).update(8, (d[8] & 0x3F) | 0x80)
}

/// The identifier of an offline player: the same for the same name, in
/// this launcher and in the vanilla client.
pub open spec fn offline_uuid_bytes(username: Seq<char>) -> Seq<u8> {
    name_uuid_bytes(md5_of(offline_name_bytes(username)))
}

/// The `MD5("OfflinePlayer:" + name)` identifier the vanilla client uses
/// for offline play (Java's `UUID.nameUUIDFromBytes`).
pub fn offline_uuid_for_username(username: &str) -> (u: Uuid)
    ensures
        u.bytes@ == offline_uuid_bytes(username@),
{
    let name = concat2("OfflinePlayer:", username);
    let mut bytes = md5_digest(name.as_str().as_bytes());
    let b6 = bytes[6];
    let b8 = bytes[8];
    bytes[6] = (b6 & 0x0F) | 0x30;
    bytes[8] = (b8 & 0x3F) | 0x80;
    assert(bytes@ =~= offline_uuid_bytes(username@));
    Uuid::from_bytes(bytes)
}

/// An identifier built from a digest is a version-3, RFC 4122 identifier
/// and keeps every other byte of the digest.
pub proof fn lemma_name_uuid_version_and_variant(d: Seq<u8>)
    requires
        d.len() == 16,
    ensures
        name_uuid_bytes(d).len() == 16,
        name_uuid_bytes(d)[6] & 0xF0 == 0x30,
        name_uuid_bytes(d)[8] & 0xC0 == 0x80,
        forall|i: int| 0 <= i < 16 && i != 6 && i != 8 ==> name_uuid_bytes(d)[i] == d[i],
{
    let a = d[6];
    let b = d[8];
    assert(((a & 0x0F) | 0x30) & 0xF0 == 0x30) by (bit_vector);
    assert(((b & 0x3F) | 0x80) & 0xC0 == 0x80) by (bit_vector);
}

/// Thirty-two `0`s: the access token of an offline account.
pub open spec fn offline_token() -> Seq<char> {
    Seq::new(32, |i: int| '0')
}

impl GameAccount {
    /// An offline account: its identifier derived from the name (see
    /// [`offline_uuid_for_username`]), a dummy token of thirty-two `0`s.
    pub fn offline(username: &str) -> (a: GameAccount)
        ensures
            a.username@ == username@,
            a.uuid.bytes@ == offline_uuid_bytes(username@),
            a.access_token@ == offline_token(),
            a.account_type == AccountType::Offline,
    {
        let mut token = String::new();
        let mut i: usize = 0;
        while i < 32
            invariant
                0 <= i <= 32,
                token@ == Seq::new(i as nat, |k: int| '0'),
            decreases 32 - i,
        {
            crate::text::push_char(&mut token, '0');
            assert(token@ =~= Seq::new((i + 1) as nat, |k: int| '0'));
            i = i + 1;
        }
        GameAccount {
            username: owned(username),
            uuid: offline_uuid_for_username(username),
            access_token: token,
            account_type: AccountType::Offline,
        }
    }
}

/// Which mod loader to launch with.
#[derive(Debug, Clone, Copy, PartialEq, Eq, Structural)]
pub enum Loader {
    Vanilla,
    Fabric,
}

/// The stages a launch goes through, reported as it progresses.
#[derive(Debug, Clone, Copy, PartialEq, Eq, Structural)]
pub enum LaunchStage {
    ResolvingVersion,
    DownloadingFiles,
    InstallingJava,
    ExtractingNatives,
    Starting,
}

/// Everything needed to launch one instance.
#[derive(Debug, Clone)]
pub struct LaunchRequest {
    pub instance_id: Uuid,
    pub minecraft_version: String,
    pub loader: Loader,
    /// Required when `loader` is `Fabric`; ignored for `Vanilla`.
    pub loader_version: Option<String>,
    pub account: GameAccount,
    /// A Java executable to use instead of detecting or installing one.
    pub java_override: Option<String>,
    pub extra_java_args: Vec<String>,
    pub extra_game_args: Vec<String>,
    pub memory_min_mb: u32,
    pub memory_max_mb: u32,
    pub window_width: u32,
    pub window_height: u32,
    pub fullscreen: bool,
}

/// One placeholder as a pair of key and value.
pub open spec fn placeholder_pairs(p: Seq<Placeholder>) -> Seq<(Seq<char>, Seq<char>)> {
    p.map_values(|x: Placeholder| (x.key@, x.value@))
}

/// The placeholder table of a launch, in a fixed order.
pub open spec fn launch_placeholders(
    request: LaunchRequest,
    version: VersionDetail,
    root: Seq<char>,
    classpath: Seq<char>,
    natives_dir: Seq<char>,
    assets_dir: Seq<char>,
    launcher_version: Seq<char>,
) -> Seq<(Seq<char>, Seq<char>)> {
    seq![
        ("auth_player_name"@, request.account.username@),
        ("version_name"@, version.id@),
        ("game_directory"@, instance_game_dir_of(root, request.instance_id.bytes@)),
        ("assets_root"@, assets_dir),
        ("game_assets"@, assets_dir),
        ("assets_index_name"@, version.asset_index.id@),
        ("auth_uuid"@, simple_form(request.account.uuid.bytes@)),
        ("auth_access_token"@, request.account.access_token@),
        ("auth_session"@, request.account.access_token@),
        ("user_type"@, user_type_of(request.account.account_type)),
        ("user_properties"@, "{}"@),
        ("version_type"@, version.version_type@),
        ("natives_directory"@, natives_dir),
        ("launcher_name"@, "launcher"@),
        ("launcher_version"@, launcher_version),
        ("classpath"@, classpath),
        ("resolution_width"@, decimal(request.window_width as nat)),
        ("resolution_height"@, decimal(request.window_height as nat)),
        ("clientid"@, simple_form(request.instance_id.bytes@)),
        ("auth_xuid"@, "0"@),
    ]
}

/// A placeholder from a key and a value.
fn placeholder(key: &str, value: String) -> (p: Placeholder)
    ensures
        p.key@ == key@,
        p.value@ == value@,
{
    Placeholder { key: owned(key), value }
}

/// The `${placeholder}` values of a launch: player, version, directories,
/// identifiers, token, window size and launcher identity.
pub fn build_placeholders(
    request: &LaunchRequest,
    version: &VersionDetail,
    paths: &LauncherPaths,
    classpath: &str,
    natives_dir: &str,
    assets_dir: &str,
    launcher_version: &str,
) -> (r: Vec<Placeholder>)
    ensures
        placeholder_pairs(r@) == launch_placeholders(
            *request,
            *version,
            paths@,
            classpath@,
            natives_dir@,
            assets_dir@,
            launcher_version@,
        ),
{
    let mut v: Vec<Placeholder> = Vec::new();
    v.push(placeholder("auth_player_name", request.account.username.clone()));
    v.push(placeholder("version_name", version.id.clone()));
    v.push(placeholder("game_directory", paths.instance_game_dir(request.instance_id)));
    v.push(placeholder("assets_root", owned(assets_dir)));
    v.push(placeholder("game_assets", owned(assets_dir)));
    v.push(placeholder("assets_index_name", version.asset_index.id.clone()));
    v.push(placeholder("auth_uuid", request.account.uuid.to_simple_string()));
    v.push(placeholder("auth_access_token", request.account.access_token.clone()));
    v.push(placeholder("auth_session", request.account.access_token.clone()));
    v.push(placeholder("user_type", owned(request.account.account_type.as_user_type_arg())));
    v.push(placeholder("user_properties", owned("{}")));
    v.push(placeholder("version_type", version.version_type.clone()));
    v.push(placeholder("natives_directory", owned(natives_dir)));
    v.push(placeholder("launcher_name", owned("launcher")));
    v.push(placeholder("launcher_version", owned(launcher_version)));
    v.push(placeholder("classpath", owned(classpath)));
    v.push(placeholder("resolution_width", decimal_string(request.window_width as u64)));
    v.push(placeholder("resolution_height", decimal_string(request.window_height as u64)));
    v.push(placeholder("clientid", request.instance_id.to_simple_string()));
    v.push(placeholder("auth_xuid", owned("0")));
    assert(placeholder_pairs(v@) =~= launch_placeholders(
        *request,
        *version,
        paths@,
        classpath@,
        natives_dir@,
        assets_dir@,
        launcher_version@,
    ));
    v
}

/// Replaces every `${key}` token of `template` by its value.
pub fn substitute_one(template: &str, placeholders: &[Placeholder]) -> (r: String)
    ensures
        r@ == substituted(template@, placeholders@),
{
    substitute(template, placeholders)
}

// ─── Command lines ───────────────────────────────────────────────────────────

/// The logging argument of a version: its template (e.g.
/// `-Dlog4j.configurationFile=${path}`) and where its configuration file is
/// stored.
#[derive(Debug, Clone)]
pub struct LoggingArgument {
    pub template: String,
    pub config_path: String,
}

/// The features active during a launch: a custom window size is always
/// given.
pub open spec fn launch_feature_set() -> Set<Seq<char>> {
    set!["has_custom_resolution"@]
}

/// The feature flags of a launch.
pub fn launch_features() -> (f: FeatureFlags)
    ensures
        f@ == launch_feature_set(),
{
    let mut f = FeatureFlags::new();
    f.set("has_custom_resolution", true);
    assert(f@ =~= launch_feature_set());
    f
}

/// `-Xms<min>M` and `-Xmx<max>M`.
pub open spec fn memory_args(min_mb: u32, max_mb: u32) -> Seq<Seq<char>> {
    seq!["-Xms"@ + decimal(min_mb as nat) + "M"@, "-Xmx"@ + decimal(max_mb as nat) + "M"@]
}

/// The logging argument with `${path}` replaced by the configuration
/// file's path, when the version has one.
pub open spec fn logging_args(logging: Option<LoggingArgument>) -> Seq<Seq<char>> {
    match logging {
        Some(l) => seq![replace_all(l.template@, needle_of("path"@), l.config_path@)],
        None => seq![],
    }
}

/// The JVM command line: the user's extra arguments, the memory bounds,
/// the logging argument, then the version's `jvm` list — or, for a
/// version without one (before 1.13), the natives path and the classpath.
pub open spec fn launch_jvm_args(
    request: LaunchRequest,
    version: VersionDetail,
    features: Set<Seq<char>>,
    placeholders: Seq<Placeholder>,
    logging: Option<LoggingArgument>,
    natives_dir: Seq<char>,
    classpath: Seq<char>,
    platform: Platform,
) -> Seq<Seq<char>> {
    views(request.extra_java_args@) + memory_args(request.memory_min_mb, request.memory_max_mb)
        + logging_args(logging) + (match version.arguments {
        Some(a) => resolved_args(a.jvm@, features, placeholders, platform),
        None => seq!["-Djava.library.path="@ + natives_dir, "-cp"@, classpath],
    })
}

/// The game command line: the version's `game` list — or, before 1.13, its
/// flat argument string (empty when absent) — then the user's extra
/// arguments.
pub open spec fn launch_game_args(
    request: LaunchRequest,
    version: VersionDetail,
    features: Set<Seq<char>>,
    placeholders: Seq<Placeholder>,
    platform: Platform,
) -> Seq<Seq<char>> {
    (match version.arguments {
        Some(a) => resolved_args(a.game@, features, placeholders, platform),
        None => substituted_all(
            split_ws(
                match version.legacy_minecraft_arguments {
                    Some(s) => s@,
                    None => Seq::<char>::empty(),
                },
            ),
            placeholders,
        ),
    }) + views(request.extra_game_args@)
}

/// Appends `extra` to `out`.
fn append_strings(out: &mut Vec<String>, extra: Vec<String>)
    ensures
        views(final(out)@) == views(old(out)@) + views(extra@),
{
    let ghost a = out@;
    let ghost b = extra@;
    let mut extra = extra;
    out.append(&mut extra);
    assert(views(a + b) =~= views(a) + views(b));
}

/// The logging argument with its configuration path filled in.
fn logging_argument_value(l: &LoggingArgument) -> (r: String)
    ensures
        r@ == replace_all(l.template@, needle_of("path"@), l.config_path@),
{
    let entry = Placeholder { key: owned("path"), value: l.config_path.clone() };
    let mut table: Vec<Placeholder> = Vec::new();
    table.push(entry);
    let r = substitute(l.template.as_str(), table.as_slice());
    assert(table@.drop_last() =~= Seq::<Placeholder>::empty());
    assert(substituted(l.template@, table@.drop_last()) == l.template@);
    assert(table@.last().key@ == "path"@);
    assert(table@.last().value@ == l.config_path@);
    r
}

/// The JVM arguments of a launch (see [`launch_jvm_args`]).
pub fn build_jvm_arguments(
    request: &LaunchRequest,
    version: &VersionDetail,
    features: &FeatureFlags,
    placeholders: &[Placeholder],
    logging: &Option<LoggingArgument>,
    natives_dir: &str,
    classpath: &str,
    platform: &Platform,
) -> (r: Vec<String>)
    ensures
        views(r@) == launch_jvm_args(
            *request,
            *version,
            features@,
            placeholders@,
            *logging,
            natives_dir@,
            classpath@,
            *platform,
        ),
{
    let mut args = copy_strings(&request.extra_java_args);
    let xms = concat3("-Xms", decimal_string(request.memory_min_mb as u64).as_str(), "M");
    let xmx = concat3("-Xmx", decimal_string(request.memory_max_mb as u64).as_str(), "M");
    let ghost a0 = args@;
    args.push(xms);
    args.push(xmx);
    assert(views(args@) =~= views(a0) + memory_args(request.memory_min_mb, request.memory_max_mb));
    let ghost a1 = args@;
    match logging {
        Some(l) => {
            args.push(logging_argument_value(l));
        },
        None => {},
    }
    assert(views(args@) =~= views(a1) + logging_args(*logging));
    let ghost a2 = args@;
    match &version.arguments {
        Some(arguments) => {
            let resolved = resolve_arguments(arguments.jvm.as_slice(), features, placeholders, platform);
            append_strings(&mut args, resolved);
        },
        None => {
            args.push(concat2("-Djava.library.path=", natives_dir));
            args.push(owned("-cp"));
            args.push(owned(classpath));
            assert(views(args@) =~= views(a2) + seq![
                "-Djava.library.path="@ + natives_dir@,
                "-cp"@,
                classpath@,
            ]);
        },
    }
    args
}

/// The game arguments of a launch (see [`launch_game_args`]).
pub fn build_game_arguments(
    request: &LaunchRequest,
    version: &VersionDetail,
    features: &FeatureFlags,
    placeholders: &[Placeholder],
    platform: &Platform,
) -> (r: Vec<String>)
    ensures
        views(r@) == launch_game_args(*request, *version, features@, placeholders@, *platform),
{
    let mut args = match &version.arguments {
        Some(arguments) => resolve_arguments(arguments.game.as_slice(), features, placeholders, platform),
        None => match &version.legacy_minecraft_arguments {
            Some(raw) => resolve_legacy_game_arguments(raw.as_str(), placeholders),
            None => resolve_legacy_game_arguments("", placeholders),
        },
    };
    proof {
        reveal_strlit("");
    }
    let extra = copy_strings(&request.extra_game_args);
    append_strings(&mut args, extra);
    args
}

// ─── What a launch downloads ─────────────────────────────────────────────────

/// The download of the client jar, to `jar_path`.
pub open spec fn client_task(version: VersionDetail, jar_path: Seq<char>, jar_cache_id: Seq<char>) -> TaskView {
    TaskView {
        url: version.downloads.client.url@,
        destination: jar_path,
        sha1: Some(version.downloads.client.sha1@),
        expected_size: Some(version.downloads.client.size),
        label: jar_cache_id + " client"@,
    }
}

/// Where a version's logging configuration is stored:
/// `<assets>/log_configs/<id>`.
pub open spec fn log_config_path_of(assets_dir: Seq<char>, id: Seq<char>) -> Seq<char> {
    path_join(path_join(assets_dir, "log_configs"@), id)
}

/// The download of the logging configuration, when the version has one.
pub open spec fn logging_tasks(version: VersionDetail, assets_dir: Seq<char>) -> Seq<TaskView> {
    match version.logging {
        Some(l) => seq![
            TaskView {
                url: l.client.file.url@,
                destination: log_config_path_of(assets_dir, l.client.file.id@),
                sha1: Some(l.client.file.sha1@),
                expected_size: Some(l.client.file.size),
                label: "logging config: "@ + l.client.file.id@,
            },
        ],
        None => seq![],
    }
}

/// Every file a launch must have on disk, in order: the client jar, the
/// classpath libraries, the natives jars, the asset objects, the logging
/// configuration.
pub open spec fn launch_downloads(
    version: VersionDetail,
    jar_path: Seq<char>,
    jar_cache_id: Seq<char>,
    resolved: ResolvedView,
    assets: Seq<TaskView>,
    assets_dir: Seq<char>,
) -> Seq<TaskView> {
    seq![client_task(version, jar_path, jar_cache_id)] + resolved.classpath_tasks
        + resolved.native_jars.map_values(|n: crate::libraries::NativeJarView| n.task) + assets
        + logging_tasks(version, assets_dir)
}

/// Where each download of a launch stands: the client jar first, then
/// every classpath task, then every natives jar's task, then every asset
/// task, then the logging configuration, each group in its own order and
/// nothing else.
pub proof fn lemma_launch_downloads_layout(
    version: VersionDetail,
    jar_path: Seq<char>,
    jar_cache_id: Seq<char>,
    resolved: ResolvedView,
    assets: Seq<TaskView>,
    assets_dir: Seq<char>,
)
    ensures
        ({
            let d = launch_downloads(version, jar_path, jar_cache_id, resolved, assets, assets_dir);
            let c = resolved.classpath_tasks.len();
            let n = resolved.native_jars.len();
            let a = assets.len();
            &&& d.len() == 1 + c + n + a + logging_tasks(version, assets_dir).len()
            &&& d[0].destination == jar_path
            &&& d[0].url == version.downloads.client.url@
            &&& d[0].sha1 == Some(version.downloads.client.sha1@)
            &&& forall|k: int| 0 <= k < c ==> d[1 + k] == resolved.classpath_tasks[k]
            &&& forall|k: int| 0 <= k < n ==> d[1 + c + k] == (#[trigger] resolved.native_jars[k]).task
            &&& forall|k: int| 0 <= k < a ==> d[1 + c + n + k] == assets[k]
            &&& d.subrange((1 + c + n + a) as int, d.len() as int) == logging_tasks(version, assets_dir)
        }),
{
    let d = launch_downloads(version, jar_path, jar_cache_id, resolved, assets, assets_dir);
    let c = resolved.classpath_tasks.len();
    let n = resolved.native_jars.len();
    let a = assets.len();
    let natives = resolved.native_jars.map_values(|j: crate::libraries::NativeJarView| j.task);
    assert forall|k: int| 0 <= k < n implies d[1 + c + k] == (#[trigger] resolved.native_jars[k]).task by {
        assert(natives[k] == resolved.native_jars[k].task);
    }
    assert(d.subrange((1 + c + n + a) as int, d.len() as int) =~= logging_tasks(version, assets_dir));
}

/// The logging argument comes right after the memory bounds, with
/// `${path}` replaced by the configuration path, whether or not the version
/// has a structured `arguments` block; without one, the memory bounds are
/// followed directly by the version's own part.
pub proof fn lemma_logging_argument_after_memory(
    request: LaunchRequest,
    version: VersionDetail,
    features: Set<Seq<char>>,
    placeholders: Seq<Placeholder>,
    logging: Option<LoggingArgument>,
    natives_dir: Seq<char>,
    classpath: Seq<char>,
    platform: Platform,
)
    ensures
        ({
            let a = launch_jvm_args(request, version, features, placeholders, logging, natives_dir, classpath, platform);
            let n = request.extra_java_args@.len() as int;
            let rest = match version.arguments {
                Some(x) => resolved_args(x.jvm@, features, placeholders, platform),
                None => seq!["-Djava.library.path="@ + natives_dir, "-cp"@, classpath],
            };
            &&& a.subrange(0, n) == views(request.extra_java_args@)
            &&& a[n] == "-Xms"@ + decimal(request.memory_min_mb as nat) + "M"@
            &&& a[n + 1] == "-Xmx"@ + decimal(request.memory_max_mb as nat) + "M"@
            &&& logging matches Some(l) ==> {
                &&& a.len() == n + 3 + rest.len()
                &&& a[n + 2] == replace_all(l.template@, "${path}"@, l.config_path@)
                &&& a.subrange(n + 3, a.len() as int) == rest
            }
            &&& logging is None ==> {
                &&& a.len() == n + 2 + rest.len()
                &&& a.subrange(n + 2, a.len() as int) == rest
            }
        }),
{
    reveal_strlit("${path}");
    reveal_strlit("path");
    assert(needle_of("path"@) =~= "${path}"@);
    let a = launch_jvm_args(request, version, features, placeholders, logging, natives_dir, classpath, platform);
    let n = request.extra_java_args@.len() as int;
    let rest = match version.arguments {
        Some(x) => resolved_args(x.jvm@, features, placeholders, platform),
        None => seq!["-Djava.library.path="@ + natives_dir, "-cp"@, classpath],
    };
    let e = views(request.extra_java_args@);
    assert(e.len() == n);
    assert(a.subrange(0, n) =~= e);
    match logging {
        Some(l) => {
            assert(a.subrange(n + 3, a.len() as int) =~= rest);
        },
        None => {
            assert(a.subrange(n + 2, a.len() as int) =~= rest);
        },
    }
}

/// What a launch must download and the logging argument it passes.
#[derive(Debug)]
pub struct LaunchDownloads {
    pub tasks: Vec<DownloadTask>,
    pub logging: Option<LoggingArgument>,
}

/// Appends `extra` to `out`.
fn append_tasks(out: &mut Vec<DownloadTask>, extra: Vec<DownloadTask>)
    ensures
        task_views(final(out)@) == task_views(old(out)@) + task_views(extra@),
{
    let ghost a = out@;
    let ghost b = extra@;
    let mut extra = extra;
    out.append(&mut extra);
    assert(task_views(a + b) =~= task_views(a) + task_views(b));
}

/// The files a launch needs (see [`launch_downloads`]), the client jar
/// cached under `jar_cache_id` (the vanilla id that
/// [`crate::fabric::launch_version`] gives, whatever the loader).
pub fn launch_download_tasks(
    version: &VersionDetail,
    jar_cache_id: &str,
    paths: &LauncherPaths,
    resolved: &ResolvedLibraries,
    asset_index: &AssetIndex,
) -> (r: LaunchDownloads)
    requires
        prefixes_cut(asset_index.objects@),
    ensures
        task_views(r.tasks@) == launch_downloads(
            *version,
            path_join(
                path_join(crate::paths::versions_dir_of(paths@), jar_cache_id@),
                jar_cache_id@ + ".jar"@,
            ),
            jar_cache_id@,
            resolved@,
            asset_tasks(asset_index.objects@, assets_dir_of(paths@)),
            assets_dir_of(paths@),
        ),
        match version.logging {
            Some(l) => r.logging matches Some(x) && x.template@ == l.client.argument@
                && x.config_path@ == log_config_path_of(assets_dir_of(paths@), l.client.file.id@),
            None => r.logging is None,
        },
{
    let client = &version.downloads.client;
    let jar = paths.version_jar_path(jar_cache_id);
    let label = concat2(jar_cache_id, " client");
    let mut tasks: Vec<DownloadTask> = Vec::new();
    tasks.push(
        DownloadTask::new(client.url.as_str(), jar.as_str(), label.as_str()).with_sha1(
            client.sha1.as_str(),
        ).with_size(client.size),
    );
    let mut i: usize = 0;
    while i < resolved.classpath_tasks.len()
        invariant
            0 <= i <= resolved.classpath_tasks.len(),
            tasks@.len() == i + 1,
            task_views(tasks@) == seq![client_task(*version, jar@, jar_cache_id@)] + task_views(
                resolved.classpath_tasks@.take(i as int),
            ),
        decreases resolved.classpath_tasks.len() - i,
    {
        let ghost before = tasks@;
        let t = resolved.classpath_tasks[i].clone();
        tasks.push(t);
        assert(task_views(tasks@) =~= task_views(before).push(t@));
        assert(resolved.classpath_tasks@.take(i + 1) =~= resolved.classpath_tasks@.take(
            i as int,
        ).push(resolved.classpath_tasks@[i as int]));
        assert(task_views(resolved.classpath_tasks@.take(i + 1)) =~= task_views(
            resolved.classpath_tasks@.take(i as int),
        ).push(t@));
        i = i + 1;
    }
    assert(resolved.classpath_tasks@.take(resolved.classpath_tasks.len() as int)
        =~= resolved.classpath_tasks@);
    let ghost after_libs = task_views(tasks@);
    let natives = &resolved.native_jars;
    let mut j: usize = 0;
    while j < natives.len()
        invariant
            0 <= j <= natives.len(),
            task_views(tasks@) == after_libs + natives@.take(j as int).map_values(
                |n: NativeJar| n@.task,
            ),
        decreases natives.len() - j,
    {
        let ghost before = tasks@;
        let t = natives[j].task.clone();
        tasks.push(t);
        assert(task_views(tasks@) =~= task_views(before).push(t@));
        assert(natives@.take(j + 1).map_values(|n: NativeJar| n@.task) =~= natives@.take(
            j as int,
        ).map_values(|n: NativeJar| n@.task).push(t@));
        j = j + 1;
    }
    assert(natives@.take(natives.len() as int) =~= natives@);
    assert(natives@.map_values(|n: NativeJar| n@.task) =~= resolved@.native_jars.map_values(
        |n: crate::libraries::NativeJarView| n.task,
    ));
    let assets_dir = paths.assets_dir();
    let asset_list = build_asset_download_tasks(asset_index, assets_dir.as_str());
    append_tasks(&mut tasks, asset_list);
    let ghost before_logging = tasks@;
    let logging = match &version.logging {
        Some(l) => {
            let file = &l.client.file;
            let dir = join_path(assets_dir.as_str(), "log_configs");
            let destination = join_path(dir.as_str(), file.id.as_str());
            let label = concat2("logging config: ", file.id.as_str());
            let t = DownloadTask::new(file.url.as_str(), destination.as_str(), label.as_str()).with_sha1(
                file.sha1.as_str(),
            ).with_size(file.size);
            tasks.push(t);
            Some(LoggingArgument { template: l.client.argument.clone(), config_path: destination })
        },
        None => None,
    };
    assert(task_views(tasks@) =~= task_views(before_logging) + logging_tasks(
        *version,
        assets_dir@,
    ));
    LaunchDownloads { tasks, logging }
}

// ─── Decisions around the launch ─────────────────────────────────────────────

/// The loader version a launch uses: none for vanilla; for Fabric the
/// requested one, which must be given.
pub fn loader_version_for(request: &LaunchRequest) -> (r: Result<Option<String>, MinecraftError>)
    ensures
        request.loader == Loader::Vanilla ==> r matches Ok(None),
        request.loader == Loader::Fabric ==> match request.loader_version {
            Some(v) => r matches Ok(Some(x)) && x@ == v@,
            None => r == Err::<Option<String>, MinecraftError>(MinecraftError::MissingLoaderVersion),
        },
{
    match request.loader {
        Loader::Vanilla => Ok(None),
        Loader::Fabric => match &request.loader_version {
            Some(v) => Ok(Some(v.clone())),
            None => Err(MinecraftError::MissingLoaderVersion),
        },
    }
}

/// Whether a Java of major version `detected` (`None`: unknown) can run a
/// version: always when the version states no requirement, else only a
/// known version at least the required one.
pub open spec fn java_acceptable(version: VersionDetail, detected: Option<u32>) -> bool {
    match version.java_version {
        None => true,
        Some(j) => detected matches Some(d) && d >= j.major_version,
    }
}

/// Whether the system Java, of major version `detected`, can run `version`.
pub fn system_java_acceptable(version: &VersionDetail, detected: Option<u32>) -> (r: bool)
    ensures
        r == java_acceptable(*version, detected),
{
    match &version.java_version {
        None => true,
        Some(j) => match detected {
            Some(d) => d >= j.major_version,
            None => false,
        },
    }
}

/// The managed runtime component a version asks for (`jre-legacy` when it
/// names none).
pub fn runtime_component(version: &VersionDetail) -> (r: String)
    ensures
        r@ == match version.java_version {
            Some(j) => j.component@,
            None => "jre-legacy"@,
        },
{
    match &version.java_version {
        Some(j) => j.component.clone(),
        None => owned("jre-legacy"),
    }
}

// ─── options.txt ─────────────────────────────────────────────────────────────

/// A line without its `\r` ending, if any.
pub open spec fn strip_cr(l: Seq<char>) -> Seq<char> {
    if l.len() > 0 && l.last() == '\r' {
        l.drop_last()
    } else {
        l
    }
}

/// The lines of a text (what `str::lines` yields): split at `\n`, a
/// `\r` before a `\n` dropped, no empty line after a final `\n`.
pub open spec fn text_lines(s: Seq<char>) -> Seq<Seq<char>> {
    let p = split_on(s, '\n');
    let body = p.drop_last().map_values(|l: Seq<char>| strip_cr(l));
    if p.last().len() == 0 {
        body
    } else {
        body.push(p.last())
    }
}

/// Whether some line, trimmed, is `fullscreen:true`.
pub open spec fn has_fullscreen_true(lines: Seq<Seq<char>>) -> bool {
    exists|i: int| 0 <= i < lines.len() && trim(#[trigger] lines[i]) == "fullscreen:true"@
}

/// The lines that do not start with `fullscreen:`, in order.
pub open spec fn non_fullscreen_lines(lines: Seq<Seq<char>>) -> Seq<Seq<char>>
    decreases lines.len(),
{
    if lines.len() == 0 {
        seq![]
    } else {
        let prev = non_fullscreen_lines(lines.drop_last());
        if "fullscreen:"@.is_prefix_of(lines.last()) {
            prev
        } else {
            prev.push(lines.last())
        }
    }
}

/// Lines joined by `\n`.
pub open spec fn joined_lines(lines: Seq<Seq<char>>) -> Seq<char>
    decreases lines.len(),
{
    if lines.len() == 0 {
        seq![]
    } else if lines.len() == 1 {
        lines[0]
    } else {
        joined_lines(lines.drop_last()) + seq!['\n'] + lines.last()
    }
}

/// What `options.txt` becomes so that the game starts in fullscreen:
/// nothing to write when a line already says `fullscreen:true`; otherwise
/// every other `fullscreen:` line dropped, `fullscreen:true` appended, and
/// a final newline. It only ever sets the preference, never clears it.
pub open spec fn fullscreen_options_of(existing: Seq<char>) -> Option<Seq<char>> {
    let lines = text_lines(existing);
    if has_fullscreen_true(lines) {
        None
    } else {
        Some(joined_lines(non_fullscreen_lines(lines).push("fullscreen:true"@)) + seq!['\n'])
    }
}

/// Splitting after a last separator: the text before splits as it did, and
/// the separator-free rest is the final piece.
proof fn lemma_split_on_append(a: Seq<char>, b: Seq<char>)
    requires
        !b.contains('\n'),
    ensures
        split_on(a + seq!['\n'] + b, '\n') == split_on(a, '\n').push(b),
    decreases a.len(),
{
    let s = a + seq!['\n'] + b;
    crate::text::lemma_find_char_bound(a, '\n');
    crate::text::lemma_find_char_bound(s, '\n');
    crate::text::lemma_find_char_bound(b, '\n');
    let n = crate::text::find_char(a, '\n');
    if n < a.len() {
        assert(s[n as int] == '\n');
        assert forall|j: int| 0 <= j < n implies s[j] != '\n' by {
            assert(s[j] == a[j]);
        }
        assert(crate::text::find_char(s, '\n') == n) by {
            let m = crate::text::find_char(s, '\n');
            if m < n {
                assert(s[m as int] == a[m as int]);
            }
        }
        assert(s.take(n as int) =~= a.take(n as int));
        assert(s.skip(n + 1int) =~= a.skip(n + 1int) + seq!['\n'] + b);
        lemma_split_on_append(a.skip(n + 1int), b);
        assert(split_on(a, '\n') == seq![a.take(n as int)] + split_on(a.skip(n + 1int), '\n'));
        assert(split_on(s, '\n') =~= split_on(a, '\n').push(b));
    } else {
        assert forall|j: int| 0 <= j < a.len() implies s[j] != '\n' by {
            assert(s[j] == a[j]);
        }
        assert(s[a.len() as int] == '\n');
        assert(crate::text::find_char(s, '\n') == a.len()) by {
            let m = crate::text::find_char(s, '\n');
            if m < a.len() {
                assert(s[m as int] == a[m as int]);
            }
        }
        assert(s.take(a.len() as int) =~= a);
        assert(s.skip(a.len() + 1int) =~= b);
        assert(crate::text::find_char(b, '\n') == b.len()) by {
            let m = crate::text::find_char(b, '\n');
            if m < b.len() {
                assert(b.contains(b[m as int]));
            }
        }
        assert(split_on(b, '\n') == seq![b]);
        assert(split_on(a, '\n') == seq![a]);
        assert(split_on(s, '\n') =~= split_on(a, '\n').push(b));
    }
}

/// The last piece of joined lines, split again, is the last line when it
/// holds no separator.
proof fn lemma_joined_last_piece(lines: Seq<Seq<char>>)
    requires
        lines.len() > 0,
        !lines.last().contains('\n'),
    ensures
        split_on(joined_lines(lines), '\n').last() == lines.last(),
{
    if lines.len() == 1 {
        let l = lines[0];
        crate::text::lemma_find_char_bound(l, '\n');
        assert(crate::text::find_char(l, '\n') == l.len()) by {
            let m = crate::text::find_char(l, '\n');
            if m < l.len() {
                assert(l.contains(l[m as int]));
            }
        }
        assert(split_on(l, '\n') == seq![l]);
    } else {
        lemma_split_on_append(joined_lines(lines.drop_last()), lines.last());
    }
}

/// Setting the preference is idempotent: once `options.txt` was rewritten,
/// it already says `fullscreen:true`, so asking again writes nothing.
pub proof fn lemma_fullscreen_idempotent(existing: Seq<char>)
    ensures
        fullscreen_options_of(existing) matches Some(c) ==> fullscreen_options_of(c) is None,
{
    if let Some(c) = fullscreen_options_of(existing) {
        let t = "fullscreen:true"@;
        reveal_strlit("fullscreen:true");
        let all = non_fullscreen_lines(text_lines(existing)).push(t);
        let j = joined_lines(all);
        assert(!t.contains('\n')) by {
            if t.contains('\n') {
                let k = choose|k: int| 0 <= k < t.len() && t[k] == '\n';
                assert(t[k] != '\n');
            }
        }
        assert(!Seq::<char>::empty().contains('\n'));
        assert(c == j + seq!['\n'] + Seq::<char>::empty()) by {
            assert(j + seq!['\n'] + Seq::<char>::empty() =~= j + seq!['\n']);
        }
        lemma_split_on_append(j, Seq::<char>::empty());
        lemma_joined_last_piece(all);
        crate::text::lemma_split_on_pieces(j, '\n');
        let p = split_on(c, '\n');
        let pj = split_on(j, '\n');
        assert(p == pj.push(Seq::<char>::empty()));
        assert(p.drop_last() =~= pj);
        let ls = text_lines(c);
        assert(ls == pj.map_values(|l: Seq<char>| strip_cr(l)));
        let i = pj.len() - 1;
        assert(pj[i] == t);
        assert(strip_cr(t) == t);
        assert(ls[i] == t);
        assert(crate::text::trim_start(t) == t);
        assert(crate::text::trim_end(t) == t);
        assert(trim(ls[i]) == t);
        assert(has_fullscreen_true(ls));
    }
}

/// A line without its `\r` ending.
fn strip_cr_exec(l: &str) -> (r: String)
    ensures
        r@ == strip_cr(l@),
{
    let c = chars_of(l);
    if c.len() > 0 && c[c.len() - 1] == '\r' {
        let r = string_of_range(&c, 0, c.len() - 1);
        assert(c@.subrange(0, c.len() - 1) =~= l@.drop_last());
        r
    } else {
        owned(l)
    }
}

/// The lines of a text (see [`text_lines`]).
pub fn lines_of(text: &str) -> (r: Vec<String>)
    ensures
        views(r@) == text_lines(text@),
{
    let pieces = split_on_char(text, '\n');
    proof {
        lemma_split_on_pieces(text@, '\n');
    }
    let n = pieces.len();
    let ghost p = split_on(text@, '\n');
    let mut out: Vec<String> = Vec::new();
    let mut i: usize = 0;
    while i + 1 < n
        invariant
            n == pieces.len(),
            n >= 1,
            views(pieces@) == p,
            0 <= i < n,
            views(out@) == p.take(i as int).map_values(|l: Seq<char>| strip_cr(l)),
        decreases n - i,
    {
        let ghost before = out@;
        let l = strip_cr_exec(pieces[i].as_str());
        out.push(l);
        assert(pieces@[i as int]@ == p[i as int]);
        assert(views(out@) =~= views(before).push(strip_cr(p[i as int])));
        assert(p.take(i + 1).map_values(|l: Seq<char>| strip_cr(l)) =~= p.take(i as int).map_values(
            |l: Seq<char>| strip_cr(l),
        ).push(strip_cr(p[i as int])));
        i = i + 1;
    }
    assert(p.take(i as int) =~= p.drop_last());
    let last = pieces[n - 1].as_str();
    assert(last@ == p.last());
    if chars_of(last).len() > 0 {
        let ghost before = out@;
        out.push(owned(last));
        assert(views(out@) =~= views(before).push(p.last()));
    }
    out
}

/// The new content of `options.txt` given its current content (see
/// [`fullscreen_options_of`]); `None` when nothing needs writing.
pub fn fullscreen_options(existing: &str) -> (r: Option<String>)
    ensures
        match fullscreen_options_of(existing@) {
            Some(c) => r matches Some(x) && x@ == c,
            None => r is None,
        },
{
    let lines = lines_of(existing);
    let ghost ls = text_lines(existing@);
    let mut i: usize = 0;
    while i < lines.len()
        invariant
            ls == text_lines(existing@),
            views(lines@) == ls,
            0 <= i <= lines.len(),
            forall|k: int| 0 <= k < i ==> trim(#[trigger] ls[k]) != "fullscreen:true"@,
        decreases lines.len() - i,
    {
        let t = trim_string(lines[i].as_str());
        assert(lines@[i as int]@ == ls[i as int]);
        if str_eq(t.as_str(), "fullscreen:true") {
            assert(trim(ls[i as int]) == "fullscreen:true"@);
            assert(has_fullscreen_true(ls));
            return None;
        }
        i = i + 1;
    }
    assert(!has_fullscreen_true(ls));
    let mut out = String::new();
    let mut count: usize = 0;
    let mut j: usize = 0;
    assert(ls.take(0) =~= Seq::<Seq<char>>::empty());
    while j < lines.len()
        invariant
            views(lines@) == ls,
            0 <= j <= lines.len(),
            count <= j,
            count == non_fullscreen_lines(ls.take(j as int)).len(),
            out@ == joined_lines(non_fullscreen_lines(ls.take(j as int))),
        decreases lines.len() - j,
    {
        let l = lines[j].as_str();
        assert(l@ == ls[j as int]);
        assert(ls.take(j + 1).drop_last() =~= ls.take(j as int));
        assert(ls.take(j + 1).last() == l@);
        let ghost before = out@;
        if !starts_with(l, "fullscreen:") {
            if count > 0 {
                push_char(&mut out, '\n');
            }
            out.append(l);
            proof {
                let k = non_fullscreen_lines(ls.take(j + 1));
                assert(!"fullscreen:"@.is_prefix_of(l@)) by {
                    if "fullscreen:"@.is_prefix_of(l@) {
                        assert(l@.take("fullscreen:"@.len() as int) =~= "fullscreen:"@);
                    }
                }
                assert(k.drop_last() =~= non_fullscreen_lines(ls.take(j as int)));
                if count == 0 {
                    assert(out@ =~= joined_lines(k));
                } else {
                    assert(out@ =~= before + seq!['\n'] + l@);
                }
            }
            count = count + 1;
        } else {
            proof {
                assert("fullscreen:"@.is_prefix_of(l@)) by {
                    assert(l@.take("fullscreen:"@.len() as int) =~= l@.subrange(
                        0,
                        "fullscreen:"@.len() as int,
                    ));
                }
            }
        }
        j = j + 1;
    }
    assert(ls.take(lines.len() as int) =~= ls);
    let ghost kept = non_fullscreen_lines(ls);
    let ghost before = out@;
    if count > 0 {
        push_char(&mut out, '\n');
    }
    out.append("fullscreen:true");
    push_char(&mut out, '\n');
    proof {
        let all = kept.push("fullscreen:true"@);
        assert(all.drop_last() =~= kept);
        if count == 0 {
            assert(joined_lines(all) == "fullscreen:true"@);
        }
        assert(out@ =~= joined_lines(all) + seq!['\n']);
    }
    Some(out)
}

// ─── Classpath ───────────────────────────────────────────────────────────────

/// The separator of a path list: `;` on Windows, `:` elsewhere.
pub open spec fn path_list_separator(os: Seq<char>) -> char {
    if os == "windows"@ {
        ';'
    } else {
        ':'
    }
}

/// Whether an entry can stand in a path list: on Windows it may not hold
/// `"`, elsewhere it may not hold the separator.
pub open spec fn path_list_entry_ok(e: Seq<char>, os: Seq<char>) -> bool {
    if os == "windows"@ {
        !e.contains('"')
    } else {
        !e.contains(':')
    }
}

/// How an entry is written in a path list: on Windows an entry holding
/// `;` is quoted.
pub open spec fn path_list_piece(e: Seq<char>, os: Seq<char>) -> Seq<char> {
    if os == "windows"@ && e.contains(';') {
        seq!['"'] + e + seq!['"']
    } else {
        e
    }
}

/// The entries joined by the separator (what `std::env::join_paths`
/// builds).
pub open spec fn joined_path_list(es: Seq<Seq<char>>, os: Seq<char>) -> Seq<char>
    decreases es.len(),
{
    if es.len() == 0 {
        seq![]
    } else if es.len() == 1 {
        path_list_piece(es[0], os)
    } else {
        joined_path_list(es.drop_last(), os) + seq![path_list_separator(os)] + path_list_piece(
            es.last(),
            os,
        )
    }
}

/// Whether `c` occurs in the characters of `s`.
fn has_char(s: &str, c: char) -> (r: bool)
    ensures
        r == s@.contains(c),
{
    let v = chars_of(s);
    let mut i: usize = 0;
    while i < v.len()
        invariant
            v@ == s@,
            0 <= i <= v.len(),
            forall|k: int| 0 <= k < i ==> v@[k] != c,
        decreases v.len() - i,
    {
        if v[i] == c {
            return true;
        }
        i = i + 1;
    }
    false
}

/// Joins classpath entries the way `std::env::join_paths` does on
/// `platform`; an entry that cannot be written in a path list is refused.
pub fn join_classpath(entries: &[String], platform: &Platform) -> (r: Result<String, MinecraftError>)
    ensures
        (forall|i: int| 0 <= i < entries@.len() ==> path_list_entry_ok(#[trigger] entries@[i]@, platform.os@))
            ==> (r matches Ok(s) && s@ == joined_path_list(views(entries@), platform.os@)),
        !(forall|i: int| 0 <= i < entries@.len() ==> path_list_entry_ok(#[trigger] entries@[i]@, platform.os@))
            ==> r matches Err(MinecraftError::InvalidClasspathEntry(_)),
{
    let windows = str_eq(platform.os.as_str(), "windows");
    let sep: char = if windows {
        ';'
    } else {
        ':'
    };
    let mut out = String::new();
    let mut i: usize = 0;
    assert(views(entries@.take(0)) =~= Seq::<Seq<char>>::empty());
    while i < entries.len()
        invariant
            0 <= i <= entries.len(),
            windows == (platform.os@ == "windows"@),
            sep == path_list_separator(platform.os@),
            forall|k: int| 0 <= k < i ==> path_list_entry_ok(#[trigger] entries@[k]@, platform.os@),
            out@ == joined_path_list(views(entries@.take(i as int)), platform.os@),
        decreases entries.len() - i,
    {
        let e = entries[i].as_str();
        let bad = if windows {
            has_char(e, '"')
        } else {
            has_char(e, ':')
        };
        if bad {
            assert(!path_list_entry_ok(entries@[i as int]@, platform.os@));
            return Err(MinecraftError::InvalidClasspathEntry(owned(e)));
        }
        let ghost before = out@;
        if i > 0 {
            push_char(&mut out, sep);
        }
        let ghost mid = out@;
        if windows && has_char(e, ';') {
            push_char(&mut out, '"');
            out.append(e);
            push_char(&mut out, '"');
            assert(out@ =~= mid + path_list_piece(e@, platform.os@));
        } else {
            out.append(e);
        }
        proof {
            let t = views(entries@.take(i + 1));
            assert(t.drop_last() =~= views(entries@.take(i as int)));
            assert(t.last() == e@);
            if i == 0 {
                assert(t.len() == 1);
                assert(out@ =~= path_list_piece(e@, platform.os@));
            } else {
                assert(out@ =~= before + seq![sep] + path_list_piece(e@, platform.os@));
            }
        }
        i = i + 1;
    }
    assert(entries@.take(entries.len() as int) =~= entries@);
    Ok(out)
}


// ─── The command line ────────────────────────────────────────────────────────

/// The classpath entries of a launch: the resolved libraries, then the
/// client jar.
pub open spec fn launch_classpath_entries(libraries: Seq<String>, client_jar: Seq<char>) -> Seq<
    Seq<char>,
> {
    views(libraries).push(client_jar)
}

/// Whether every classpath entry can be written in a path list.
pub open spec fn classpath_entries_ok(entries: Seq<Seq<char>>, os: Seq<char>) -> bool {
    forall|i: int| 0 <= i < entries.len() ==> path_list_entry_ok(#[trigger] entries[i], os)
}

/// The command line of a launch, with the classpath and the placeholder
/// table it was built from.
#[derive(Debug, Clone)]
pub struct LaunchCommandLine {
    pub classpath: String,
    pub placeholders: Vec<Placeholder>,
    /// JVM arguments, the main class, then game arguments.
    pub args: Vec<String>,
}

/// Builds the Java command line of a launch: the classpath of the resolved
/// libraries and the client jar cached under `jar_cache_id`, the
/// placeholder table, then the JVM arguments, the main class and the game
/// arguments. Refused when a classpath entry cannot be written in a path
/// list.
pub fn launch_command_line(
    request: &LaunchRequest,
    version: &VersionDetail,
    paths: &LauncherPaths,
    resolved: &ResolvedLibraries,
    logging: &Option<LoggingArgument>,
    natives_dir: &str,
    jar_cache_id: &str,
    launcher_version: &str,
    platform: &Platform,
) -> (r: Result<LaunchCommandLine, MinecraftError>)
    ensures
        classpath_entries_ok(
            launch_classpath_entries(
                resolved.classpath_entries@,
                path_join(path_join(versions_dir_of(paths@), jar_cache_id@), jar_cache_id@ + ".jar"@),
            ),
            platform.os@,
        ) <==> r is Ok,
        r matches Err(e) ==> e is InvalidClasspathEntry,
        r matches Ok(c) ==> {
            &&& c.classpath@ == joined_path_list(
                launch_classpath_entries(
                    resolved.classpath_entries@,
                    path_join(path_join(versions_dir_of(paths@), jar_cache_id@), jar_cache_id@ + ".jar"@),
                ),
                platform.os@,
            )
            &&& placeholder_pairs(c.placeholders@) == launch_placeholders(
                *request,
                *version,
                paths@,
                c.classpath@,
                natives_dir@,
                assets_dir_of(paths@),
                launcher_version@,
            )
            &&& views(c.args@) == launch_jvm_args(
                *request,
                *version,
                launch_feature_set(),
                c.placeholders@,
                *logging,
                natives_dir@,
                c.classpath@,
                *platform,
            ) + seq![version.main_class@] + launch_game_args(
                *request,
                *version,
                launch_feature_set(),
                c.placeholders@,
                *platform,
            )
        },
{
    let mut entries = copy_strings(&resolved.classpath_entries);
    let jar = paths.version_jar_path(jar_cache_id);
    let ghost jar_view = jar@;
    entries.push(jar);
    proof {
        assert(views(entries@) =~= launch_classpath_entries(resolved.classpath_entries@, jar_view));
    }
    let classpath = match join_classpath(entries.as_slice(), platform) {
        Ok(c) => c,
        Err(e) => {
            proof {
                let i = choose|i: int|
                    0 <= i < entries@.len() && !path_list_entry_ok(#[trigger] entries@[i]@, platform.os@);
                assert(views(entries@)[i] == entries@[i]@);
            }
            return Err(e);
        },
    };
    let assets_dir = paths.assets_dir();
    let placeholders = build_placeholders(
        request,
        version,
        paths,
        classpath.as_str(),
        natives_dir,
        assets_dir.as_str(),
        launcher_version,
    );
    let features = launch_features();
    let mut args = build_jvm_arguments(
        request,
        version,
        &features,
        placeholders.as_slice(),
        logging,
        natives_dir,
        classpath.as_str(),
        platform,
    );
    let ghost jvm = args@;
    args.push(version.main_class.clone());
    let game = build_game_arguments(request, version, &features, placeholders.as_slice(), platform);
    let ghost with_main = args@;
    append_strings(&mut args, game);
    proof {
        assert(views(with_main) =~= views(jvm) + seq![version.main_class@]);
    }
    Ok(LaunchCommandLine { classpath, placeholders, args })
}

} // verus!
