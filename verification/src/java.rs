//! Java: reading the major version out of `java -version`, where the
//! executables live, and the installation plan of a Mojang-distributed
//! runtime (which builds to pick, which files to fetch, which links and
//! directories to create).
use vstd::prelude::*;

use crate::downloads::{DownloadTask, TaskView, task_views};
use crate::error::MinecraftError;
use crate::ext::{capture_views, regex_captures_of, regex_first_captures, regex_is_valid};
use crate::os_match::Platform;
use crate::paths::{join_path, path_join};
use crate::text::{chars_of, concat2, find_char, lemma_find_char_bound, owned, str_eq, string_of_range, trim, trim_bounds};

verus! {

/// Where Mojang lists its Java runtime builds.
pub const JAVA_RUNTIME_MANIFEST_URL: &'static str =
    "https://launchermeta.mojang.com/v1/products/java-runtime/2ec0cc96c44e5a76b9c8b7c39df7210883d12871/all.json";

/// The pattern that finds the version in `java -version` output: the first
/// number, and the second one when there is a dot.
pub const JAVA_VERSION_PATTERN: &'static str = "version \"(\\d+)(?:\\.(\\d+))?";

// ─── Reading numbers ─────────────────────────────────────────────────────────

/// Whether `c` is an ASCII decimal digit.
pub open spec fn is_ascii_digit(c: char) -> bool {
    '0' <= c <= '9'
}

/// The value of a string of decimal digits.
pub open spec fn digits_value(s: Seq<char>) -> int
    decreases s.len(),
{
    if s.len() == 0 {
        0
    } else {
        digits_value(s.drop_last()) * 10 + (s.last() as int - '0' as int)
    }
}

/// `s` without a leading `+`.
pub open spec fn unsigned_digits(s: Seq<char>) -> Seq<char> {
    if s.len() > 0 && s[0] == '+' {
        s.drop_first()
    } else {
        s
    }
}

/// Whether every character of `d` is an ASCII digit.
pub open spec fn all_ascii_digits(d: Seq<char>) -> bool {
    forall|i: int| 0 <= i < d.len() ==> is_ascii_digit(#[trigger] d[i])
}

/// What `u32::from_str` reads from `s`: an optional `+`, then at least
/// one ASCII digit and nothing else, with a value that fits; otherwise
/// nothing.
pub open spec fn parsed_u32(s: Seq<char>) -> Option<u32> {
    let d = unsigned_digits(s);
    if d.len() > 0 && all_ascii_digits(d) && digits_value(d) <= u32::MAX {
        Some(digits_value(d) as u32)
    } else {
        None
    }
}

/// A digit string has a non-negative value, no smaller than that of any of
/// its prefixes.
proof fn lemma_digits_value_prefix(d: Seq<char>, k: int)
    requires
        0 <= k <= d.len(),
        forall|i: int| 0 <= i < d.len() ==> is_ascii_digit(#[trigger] d[i]),
    ensures
        0 <= digits_value(d.take(k)) <= digits_value(d),
    decreases d.len(),
{
    if k == d.len() {
        assert(d.take(k) =~= d);
        if d.len() > 0 {
            let p = d.drop_last();
            assert forall|i: int| 0 <= i < p.len() implies is_ascii_digit(#[trigger] p[i]) by {
                assert(p[i] == d[i]);
            }
            lemma_digits_value_prefix(p, p.len() as int);
            assert(p.take(p.len() as int) =~= p);
            assert(is_ascii_digit(d[d.len() - 1]));
        }
    } else {
        let p = d.drop_last();
        assert forall|i: int| 0 <= i < p.len() implies is_ascii_digit(#[trigger] p[i]) by {
            assert(p[i] == d[i]);
        }
        lemma_digits_value_prefix(p, k);
        lemma_digits_value_prefix(p, p.len() as int);
        assert(p.take(k) =~= d.take(k));
        assert(p.take(p.len() as int) =~= p);
        assert(is_ascii_digit(d[d.len() - 1]));
    }
}

/// Reads a `u32` the way `str::parse::<u32>` does.
pub fn parse_u32(s: &str) -> (r: Option<u32>)
    ensures
        r == parsed_u32(s@),
{
    let c = chars_of(s);
    let start: usize = if c.len() > 0 && c[0] == '+' {
        1
    } else {
        0
    };
    let ghost d = unsigned_digits(s@);
    assert(d =~= c@.skip(start as int));
    if start == c.len() {
        return None;
    }
    let mut acc: u64 = 0;
    let mut i: usize = start;
    assert(d.take(0) =~= Seq::<char>::empty());
    while i < c.len()
        invariant
            c@ == s@,
            d == unsigned_digits(s@),
            d == c@.skip(start as int),
            start <= i <= c.len(),
            forall|m: int| 0 <= m < i - start ==> is_ascii_digit(#[trigger] d[m]),
            acc == digits_value(d.take(i - start)),
            acc <= u32::MAX,
        decreases c.len() - i,
    {
        let ch = c[i];
        proof {
            assert(d[i - start] == ch);
        }
        if !('0' <= ch && ch <= '9') {
            assert(!all_ascii_digits(d));
            assert(parsed_u32(s@) is None);
            return None;
        }
        let v: u64 = (ch as u32 - '0' as u32) as u64;
        acc = acc * 10 + v;
        proof {
            let t = d.take(i + 1 - start);
            assert(t.drop_last() =~= d.take(i - start));
            assert(t.last() == ch);
            assert(acc == digits_value(t));
            assert(is_ascii_digit(d[i - start]));
        }
        if acc > 0xffff_ffff {
            proof {
                if all_ascii_digits(d) {
                    lemma_digits_value_prefix(d, i + 1 - start);
                }
                assert(parsed_u32(s@) is None);
            }
            return None;
        }
        i = i + 1;
    }
    assert(d.take(d.len() as int) =~= d);
    Some(acc as u32)
}

// ─── `java -version` ─────────────────────────────────────────────────────────

/// The major Java version given the groups of the version pattern: the
/// first number, except that `1.x` (Java 8 and older) means `x`.
pub open spec fn major_from_groups(caps: Option<Seq<Option<Seq<char>>>>) -> Option<u32> {
    match caps {
        None => None,
        Some(g) => if g.len() < 2 || g[1] is None {
            None
        } else {
            match parsed_u32(g[1]->0) {
                None => None,
                Some(first) => if first == 1 {
                    if g.len() < 3 || g[2] is None {
                        None
                    } else {
                        parsed_u32(g[2]->0)
                    }
                } else {
                    Some(first)
                },
            }
        },
    }
}

/// The major Java version from the capture groups of
/// [`JAVA_VERSION_PATTERN`] (group 0 first), handling both the old
/// `1.8.0_401` scheme and the modern `21.0.3` one.
pub fn java_major_from_captures(groups: &[Option<String>]) -> (r: Option<u32>)
    ensures
        r == major_from_groups(Some(capture_views(groups@))),
{
    let ghost g = capture_views(groups@);
    if groups.len() < 2 {
        return None;
    }
    let first = match &groups[1] {
        None => {
            return None;
        },
        Some(t) => parse_u32(t.as_str()),
    };
    match first {
        None => None,
        Some(v) => {
            if v == 1 {
                if groups.len() < 3 {
                    return None;
                }
                match &groups[2] {
                    None => None,
                    Some(t) => parse_u32(t.as_str()),
                }
            } else {
                Some(v)
            }
        },
    }
}

/// Parses the major version out of the (stderr) output of `java -version`.
pub fn parse_java_major_version(text: &str) -> (r: Option<u32>)
    ensures
        r == (if regex_is_valid(JAVA_VERSION_PATTERN@) {
            major_from_groups(regex_captures_of(JAVA_VERSION_PATTERN@, text@))
        } else {
            None
        }),
{
    match regex_first_captures(JAVA_VERSION_PATTERN, text) {
        None => None,
        Some(groups) => java_major_from_captures(groups.as_slice()),
    }
}

/// The first line of a command's output, trimmed, or nothing when it is
/// blank (how the output of `which java` / `where java` is read).
pub open spec fn first_line_of(output: Seq<char>) -> Option<Seq<char>> {
    let line = trim(output.take(find_char(output, '\n') as int));
    if line.len() == 0 {
        None
    } else {
        Some(line)
    }
}

/// The first line of `output`, trimmed; `None` when it is blank.
pub fn first_output_line(output: &str) -> (r: Option<String>)
    ensures
        r matches Some(s) ==> first_line_of(output@) == Some(s@),
        r is None ==> first_line_of(output@) is None,
{
    let c = chars_of(output);
    let mut n: usize = 0;
    while n < c.len() && c[n] != '\n'
        invariant
            c@ == output@,
            0 <= n <= c.len(),
            forall|m: int| 0 <= m < n ==> c@[m] != '\n',
        decreases c.len() - n,
    {
        n = n + 1;
    }
    proof {
        lemma_find_char_bound(output@, '\n');
        let f = find_char(output@, '\n');
        if f < n {
            assert(output@[f as int] == '\n');
        }
        if n < c.len() && n < f {
            assert(output@[n as int] == '\n');
        }
        assert(f == n);
    }
    let line = string_of_range(&c, 0, n);
    let lc = chars_of(line.as_str());
    let (a, b) = trim_bounds(&lc);
    if a == b {
        None
    } else {
        Some(string_of_range(&lc, a, b))
    }
}

// ─── Executables ─────────────────────────────────────────────────────────────

/// The name of the Java executable on an OS (`std::env::consts::OS` name).
pub open spec fn java_binary_name_of(os: Seq<char>) -> Seq<char> {
    if os == "windows"@ {
        "java.exe"@
    } else {
        "java"@
    }
}

/// `java.exe` on Windows, `java` elsewhere.
pub fn java_binary_name(platform: &Platform) -> (r: &'static str)
    ensures
        r@ == java_binary_name_of(platform.os@),
{
    if str_eq(platform.os.as_str(), "windows") {
        "java.exe"
    } else {
        "java"
    }
}

/// `<java_home>/bin/<java binary>`: the candidate a `JAVA_HOME` points to.
pub fn java_home_candidate(java_home: &str, platform: &Platform) -> (r: String)
    ensures
        r@ == path_join(path_join(java_home@, "bin"@), java_binary_name_of(platform.os@)),
{
    let bin = join_path(java_home, "bin");
    join_path(bin.as_str(), java_binary_name(platform))
}

/// The executable of a managed runtime rooted at `java_root`: on Windows
/// `bin/javaw.exe` when it exists (no console window), else
/// `bin/java.exe`; elsewhere `bin/java`.
pub open spec fn managed_executable_of(java_root: Seq<char>, os: Seq<char>, windowed_exists: bool) -> Seq<
    char,
> {
    let bin = path_join(java_root, "bin"@);
    if os == "windows"@ {
        if windowed_exists {
            path_join(bin, "javaw.exe"@)
        } else {
            path_join(bin, "java.exe"@)
        }
    } else {
        path_join(bin, "java"@)
    }
}

/// The executable of the managed runtime at `java_root`;
/// `windowed_exists` tells whether `bin/javaw.exe` exists there.
pub fn managed_java_executable_path(java_root: &str, platform: &Platform, windowed_exists: bool) -> (r:
    String)
    ensures
        r@ == managed_executable_of(java_root@, platform.os@, windowed_exists),
{
    let bin = join_path(java_root, "bin");
    if str_eq(platform.os.as_str(), "windows") {
        if windowed_exists {
            join_path(bin.as_str(), "javaw.exe")
        } else {
            join_path(bin.as_str(), "java.exe")
        }
    } else {
        join_path(bin.as_str(), "java")
    }
}

/// `<bin>/javaw.exe`: the file whose existence picks the windowed
/// executable on Windows.
pub fn windowed_java_path(java_root: &str) -> (r: String)
    ensures
        r@ == path_join(path_join(java_root@, "bin"@), "javaw.exe"@),
{
    let bin = join_path(java_root, "bin");
    join_path(bin.as_str(), "javaw.exe")
}

// ─── Managed runtimes ────────────────────────────────────────────────────────

/// How Mojang's runtime manifest names a platform, from the Rust names of
/// its OS and architecture; `None` where Mojang publishes no runtime.
pub open spec fn runtime_key_of(os: Seq<char>, arch: Seq<char>) -> Option<Seq<char>> {
    if os == "windows"@ && arch == "x86_64"@ {
        Some("windows-x64"@)
    } else if os == "windows"@ && arch == "x86"@ {
        Some("windows-x86"@)
    } else if os == "windows"@ && arch == "aarch64"@ {
        Some("windows-arm64"@)
    } else if os == "macos"@ && arch == "aarch64"@ {
        Some("mac-os-arm64"@)
    } else if os == "macos"@ {
        Some("mac-os"@)
    } else if os == "linux"@ && arch == "x86"@ {
        Some("linux-i386"@)
    } else if os == "linux"@ && arch == "x86_64"@ {
        Some("linux"@)
    } else {
        None
    }
}

/// The manifest's key for `platform`, or `None` (32-bit ARM, BSDs, ...),
/// in which case only a system Java install can be used.
pub fn runtime_platform_key(platform: &Platform) -> (r: Option<&'static str>)
    ensures
        match r {
            Some(k) => runtime_key_of(platform.os@, platform.arch@) == Some(k@),
            None => runtime_key_of(platform.os@, platform.arch@) is None,
        },
{
    let os = platform.os.as_str();
    let arch = platform.arch.as_str();
    if str_eq(os, "windows") && str_eq(arch, "x86_64") {
        Some("windows-x64")
    } else if str_eq(os, "windows") && str_eq(arch, "x86") {
        Some("windows-x86")
    } else if str_eq(os, "windows") && str_eq(arch, "aarch64") {
        Some("windows-arm64")
    } else if str_eq(os, "macos") && str_eq(arch, "aarch64") {
        Some("mac-os-arm64")
    } else if str_eq(os, "macos") {
        Some("mac-os")
    } else if str_eq(os, "linux") && str_eq(arch, "x86") {
        Some("linux-i386")
    } else if str_eq(os, "linux") && str_eq(arch, "x86_64") {
        Some("linux")
    } else {
        None
    }
}

/// `<runtimes>/<component>/<platform>/<component>`: where a managed
/// runtime is installed.
pub fn managed_runtime_root(runtime_dir: &str, component: &str, platform_key: &str) -> (r: String)
    ensures
        r@ == path_join(path_join(path_join(runtime_dir@, component@), platform_key@), component@),
{
    let a = join_path(runtime_dir, component);
    let b = join_path(a.as_str(), platform_key);
    join_path(b.as_str(), component)
}

/// `<java_root>/.install-complete`: written once an install finished.
pub fn install_sentinel_path(java_root: &str) -> (r: String)
    ensures
        r@ == path_join(java_root@, ".install-complete"@),
{
    join_path(java_root, ".install-complete")
}

/// Whether a managed runtime is already installed: its executable and its
/// install marker both exist (a marker is written only after a complete
/// install, so an interrupted one is redone).
pub fn runtime_is_installed(executable_exists: bool, sentinel_exists: bool) -> (r: bool)
    ensures
        r == (executable_exists && sentinel_exists),
{
    executable_exists && sentinel_exists
}

/// A manifest of Java runtime builds: platform key → component name
/// (`jre-legacy`, `java-runtime-gamma`, ...) → candidate builds, newest
/// first.
#[derive(Debug, Clone)]
pub struct JavaRuntimeManifest {
    pub platforms: Vec<PlatformRuntimes>,
}

/// The components published for one platform.
#[derive(Debug, Clone)]
pub struct PlatformRuntimes {
    pub platform: String,
    pub components: Vec<ComponentRuntimes>,
}

/// The builds of one component, newest first.
#[derive(Debug, Clone)]
pub struct ComponentRuntimes {
    pub component: String,
    pub builds: Vec<JavaRuntimeEntry>,
}

/// One runtime build.
#[derive(Debug, Clone)]
pub struct JavaRuntimeEntry {
    pub manifest: JavaManifestRef,
}

/// Where the file list of a runtime build is published.
#[derive(Debug, Clone)]
pub struct JavaManifestRef {
    pub url: String,
}

/// The position of `key` among the platforms, if listed.
pub open spec fn platform_index(ps: Seq<PlatformRuntimes>, key: Seq<char>) -> Option<int>
    decreases ps.len(),
{
    if ps.len() == 0 {
        None
    } else if ps.last().platform@ == key {
        Some(ps.len() - 1)
    } else {
        platform_index(ps.drop_last(), key)
    }
}

/// The position of `name` among the components, if listed.
pub open spec fn component_index(cs: Seq<ComponentRuntimes>, name: Seq<char>) -> Option<int>
    decreases cs.len(),
{
    if cs.len() == 0 {
        None
    } else if cs.last().component@ == name {
        Some(cs.len() - 1)
    } else {
        component_index(cs.drop_last(), name)
    }
}

/// The file-list address of the newest build of `component` for
/// `platform_key`, when the manifest has one.
pub open spec fn runtime_manifest_url_of(m: JavaRuntimeManifest, platform_key: Seq<char>, component: Seq<
    char,
>) -> Option<Seq<char>> {
    match platform_index(m.platforms@, platform_key) {
        None => None,
        Some(p) => match component_index(m.platforms@[p].components@, component) {
            None => None,
            Some(c) => {
                let builds = m.platforms@[p].components@[c].builds@;
                if builds.len() == 0 {
                    None
                } else {
                    Some(builds[0].manifest.url@)
                }
            },
        },
    }
}

/// A found position holds the key and lies in range.
proof fn lemma_platform_index(ps: Seq<PlatformRuntimes>, key: Seq<char>)
    ensures
        platform_index(ps, key) matches Some(i) ==> 0 <= i < ps.len() && ps[i].platform@ == key,
    decreases ps.len(),
{
    if ps.len() > 0 && ps.last().platform@ != key {
        lemma_platform_index(ps.drop_last(), key);
    }
}

/// A found position holds the name and lies in range.
proof fn lemma_component_index(cs: Seq<ComponentRuntimes>, name: Seq<char>)
    ensures
        component_index(cs, name) matches Some(i) ==> 0 <= i < cs.len() && cs[i].component@ == name,
    decreases cs.len(),
{
    if cs.len() > 0 && cs.last().component@ != name {
        lemma_component_index(cs.drop_last(), name);
    }
}

/// The file-list address of the runtime to install: the newest build of
/// `component` for `platform_key`; `NoJavaAvailable` when the manifest
/// lists none.
#[verifier::loop_isolation(false)]
pub fn select_runtime_manifest_url(manifest: &JavaRuntimeManifest, platform_key: &str, component: &str) -> (r:
    Result<String, MinecraftError>)
    ensures
        match runtime_manifest_url_of(*manifest, platform_key@, component@) {
            Some(u) => r matches Ok(s) && s@ == u,
            None => r matches Err(MinecraftError::NoJavaAvailable { component: c }) && c@
                == component@,
        },
{
    let ps = &manifest.platforms;
    let mut i: usize = ps.len();
    assert(ps@.take(ps.len() as int) =~= ps@);
    while i > 0
        invariant
            i <= ps.len(),
            platform_index(ps@, platform_key@) == platform_index(ps@.take(i as int), platform_key@),
        decreases i,
    {
        assert(ps@.take(i as int).drop_last() =~= ps@.take(i - 1));
        if str_eq(ps[i - 1].platform.as_str(), platform_key) {
            let cs = &ps[i - 1].components;
            proof {
                assert(platform_index(ps@, platform_key@) == Some(i - 1));
            }
            let mut j: usize = cs.len();
            assert(cs@.take(cs.len() as int) =~= cs@);
            while j > 0
                invariant
                    j <= cs.len(),
                    component_index(cs@, component@) == component_index(cs@.take(j as int), component@),
                decreases j,
            {
                assert(cs@.take(j as int).drop_last() =~= cs@.take(j - 1));
                if str_eq(cs[j - 1].component.as_str(), component) {
                    let builds = &cs[j - 1].builds;
                    assert(component_index(cs@, component@) == Some((j - 1) as int));
                    if builds.len() == 0 {
                        return Err(MinecraftError::NoJavaAvailable { component: owned(component) });
                    }
                    return Ok(builds[0].manifest.url.clone());
                }
                j = j - 1;
            }
            assert(cs@.take(0) =~= Seq::<ComponentRuntimes>::empty());
            assert(component_index(cs@, component@) is None);
            return Err(MinecraftError::NoJavaAvailable { component: owned(component) });
        }
        i = i - 1;
    }
    assert(ps@.take(0) =~= Seq::<PlatformRuntimes>::empty());
    assert(platform_index(ps@, platform_key@) is None);
    Err(MinecraftError::NoJavaAvailable { component: owned(component) })
}

/// One entry of a runtime build's file list, at `path` relative to the
/// runtime root.
#[derive(Debug, Clone)]
pub struct RuntimeFile {
    pub path: String,
    /// `"directory"`, `"file"` or `"link"`.
    pub entry_type: String,
    pub downloads: Option<RuntimeFileDownloadRaw>,
    pub executable: bool,
    /// For a link: what it points to.
    pub target: Option<String>,
}

/// The raw (uncompressed) download of a runtime file.
#[derive(Debug, Clone)]
pub struct RuntimeFileDownloadRaw {
    pub sha1: String,
    pub size: u64,
    pub url: String,
}

/// A symbolic link to create: at `path`, pointing to `target`.
#[derive(Debug, Clone)]
pub struct RuntimeLink {
    pub path: String,
    pub target: String,
}

/// What installing a runtime takes: directories to create, files to fetch,
/// files (relative paths) to mark executable afterwards, links to create.
#[derive(Debug)]
pub struct RuntimeInstallPlan {
    pub directories: Vec<String>,
    pub tasks: Vec<DownloadTask>,
    pub executables: Vec<String>,
    pub links: Vec<RuntimeLink>,
}

/// A runtime install plan as plain values.
pub struct PlanView {
    pub directories: Seq<Seq<char>>,
    pub tasks: Seq<TaskView>,
    pub executables: Seq<Seq<char>>,
    pub links: Seq<(Seq<char>, Seq<char>)>,
}

/// The characters of each string.
pub open spec fn str_views(v: Seq<String>) -> Seq<Seq<char>> {
    v.map_values(|s: String| s@)
}

/// Each link as a pair of path and target.
pub open spec fn link_views(v: Seq<RuntimeLink>) -> Seq<(Seq<char>, Seq<char>)> {
    v.map_values(|l: RuntimeLink| (l.path@, l.target@))
}

impl View for RuntimeInstallPlan {
    type V = PlanView;

    open spec fn view(&self) -> PlanView {
        PlanView {
            directories: str_views(self.directories@),
            tasks: task_views(self.tasks@),
            executables: str_views(self.executables@),
            links: link_views(self.links@),
        }
    }
}

/// The download of one runtime file.
pub open spec fn runtime_task(java_root: Seq<char>, f: RuntimeFile, d: RuntimeFileDownloadRaw) -> TaskView {
    TaskView {
        url: d.url@,
        destination: path_join(java_root, f.path@),
        sha1: Some(d.sha1@),
        expected_size: Some(d.size),
        label: "java runtime: "@ + f.path@,
    }
}

/// The plan after one more file-list entry: a directory to create, a file
/// to fetch (and mark executable when flagged), or a link to create;
/// entries of another kind, files without a download and links without a
/// target add nothing.
pub open spec fn plan_step(p: PlanView, java_root: Seq<char>, f: RuntimeFile) -> PlanView {
    if f.entry_type@ == "directory"@ {
        PlanView { directories: p.directories.push(path_join(java_root, f.path@)), ..p }
    } else if f.entry_type@ == "file"@ {
        match f.downloads {
            Some(d) => PlanView {
                tasks: p.tasks.push(runtime_task(java_root, f, d)),
                executables: if f.executable {
                    p.executables.push(f.path@)
                } else {
                    p.executables
                },
                ..p
            },
            None => p,
        }
    } else if f.entry_type@ == "link"@ {
        match f.target {
            Some(t) => PlanView { links: p.links.push((path_join(java_root, f.path@), t@)), ..p },
            None => p,
        }
    } else {
        p
    }
}

/// The plan for a whole file list, entry by entry.
pub open spec fn install_plan_of(java_root: Seq<char>, files: Seq<RuntimeFile>) -> PlanView
    decreases files.len(),
{
    if files.len() == 0 {
        PlanView { directories: seq![], tasks: seq![], executables: seq![], links: seq![] }
    } else {
        plan_step(install_plan_of(java_root, files.drop_last()), java_root, files.last())
    }
}

/// The link a `"link"` entry asks for, if it names a target (Windows
/// listings do not use links in practice).
pub fn runtime_link(java_root: &str, relative_path: &str, target: Option<&str>) -> (r: Option<
    RuntimeLink,
>)
    ensures
        match target {
            Some(t) => r matches Some(x) && x.path@ == path_join(java_root@, relative_path@)
                && x.target@ == t@,
            None => r is None,
        },
{
    match target {
        None => None,
        Some(t) => Some(RuntimeLink { path: join_path(java_root, relative_path), target: owned(t) }),
    }
}

/// The installation plan of a runtime rooted at `java_root` from its file
/// list.
pub fn plan_runtime_install(java_root: &str, files: &[RuntimeFile]) -> (r: RuntimeInstallPlan)
    ensures
        r@ == install_plan_of(java_root@, files@),
{
    let mut plan = RuntimeInstallPlan {
        directories: Vec::new(),
        tasks: Vec::new(),
        executables: Vec::new(),
        links: Vec::new(),
    };
    let mut i: usize = 0;
    assert(files@.take(0) =~= Seq::<RuntimeFile>::empty());
    assert(str_views(plan.directories@) =~= Seq::<Seq<char>>::empty());
    assert(str_views(plan.executables@) =~= Seq::<Seq<char>>::empty());
    assert(task_views(plan.tasks@) =~= Seq::<TaskView>::empty());
    assert(link_views(plan.links@) =~= Seq::<(Seq<char>, Seq<char>)>::empty());
    assert(plan@ == install_plan_of(java_root@, files@.take(0)));
    while i < files.len()
        invariant
            0 <= i <= files.len(),
            plan@ == install_plan_of(java_root@, files@.take(i as int)),
        decreases files.len() - i,
    {
        let f = &files[i];
        let ghost before = plan@;
        let ghost old_dirs = plan.directories@;
        let ghost old_tasks = plan.tasks@;
        let ghost old_exec = plan.executables@;
        let ghost old_links = plan.links@;
        let kind = f.entry_type.as_str();
        if str_eq(kind, "directory") {
            plan.directories.push(join_path(java_root, f.path.as_str()));
            assert(str_views(plan.directories@) =~= str_views(old_dirs).push(
                path_join(java_root@, f.path@),
            ));
        } else if str_eq(kind, "file") {
            match &f.downloads {
                Some(d) => {
                    let destination = join_path(java_root, f.path.as_str());
                    let label = concat2("java runtime: ", f.path.as_str());
                    let t = DownloadTask::new(d.url.as_str(), destination.as_str(), label.as_str()).with_sha1(
                        d.sha1.as_str(),
                    ).with_size(d.size);
                    plan.tasks.push(t);
                    assert(task_views(plan.tasks@) =~= task_views(old_tasks).push(t@));
                    if f.executable {
                        plan.executables.push(f.path.clone());
                        assert(str_views(plan.executables@) =~= str_views(old_exec).push(f.path@));
                    }
                },
                None => {},
            }
        } else if str_eq(kind, "link") {
            let target = match &f.target {
                Some(t) => Some(t.as_str()),
                None => None,
            };
            match runtime_link(java_root, f.path.as_str(), target) {
                Some(l) => {
                    let ghost lv = (l.path@, l.target@);
                    plan.links.push(l);
                    assert(link_views(plan.links@) =~= link_views(old_links).push(lv));
                },
                None => {},
            }
        }
        proof {
            assert(files@.take(i + 1).drop_last() =~= files@.take(i as int));
            assert(files@.take(i + 1).last() == files@[i as int]);
            assert(plan@ == plan_step(before, java_root@, files@[i as int]));
        }
        i = i + 1;
    }
    assert(files@.take(files.len() as int) =~= files@);
    plan
}

/// How an install ends: the executable when it exists afterwards, else
/// `NoJavaAvailable` for the component.
pub fn installed_runtime(executable: String, executable_exists: bool, component: &str) -> (r: Result<
    String,
    MinecraftError,
>)
    ensures
        executable_exists ==> r == Ok::<String, MinecraftError>(executable),
        !executable_exists ==> (r matches Err(MinecraftError::NoJavaAvailable { component: c })
            && c@ == component@),
{
    if executable_exists {
        Ok(executable)
    } else {
        Err(MinecraftError::NoJavaAvailable { component: owned(component) })
    }
}

} // verus!
