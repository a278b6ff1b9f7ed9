//! Library resolution: which jars go on the classpath, what to download
//! for them, which native jars to unpack, and the de-duplication used when
//! a loader's library list is merged onto vanilla's.
use vstd::prelude::*;

use crate::downloads::{DownloadTask, TaskView, task_views};
use crate::error::MinecraftError;
use crate::ext::{
    zip_entry_count, zip_entry_count_of, zip_entry_data, zip_entry_data_of, zip_entry_header, zip_entry_header_of,
};
use crate::os_match::{FeatureFlags, Platform, mojang_os, mojang_os_name, rules_admit, rules_allow};
use crate::paths::{join_path, path_join};
use crate::text::{
    lemma_split_at_first, lemma_split_on_pieces, chars_of, concat2, concat3, contains, contains_seq, ends_with_char, owned, push_char, replace,
    replace_all, split_on, split_on_char, str_eq, views,
};
use crate::version_detail::{ClassifierArtifact, Library, LibraryArtifact, NativesEntry};

verus! {

/// Everything needed to launch: the classpath jars and their downloads, and
/// the native jars to unpack before the JVM starts.
#[derive(Debug)]
pub struct ResolvedLibraries {
    pub classpath_tasks: Vec<DownloadTask>,
    pub classpath_entries: Vec<String>,
    pub native_jars: Vec<NativeJar>,
}

/// A natives jar to download and unpack.
#[derive(Debug, Clone)]
pub struct NativeJar {
    pub task: DownloadTask,
    pub destination: String,
    /// Path prefixes inside the jar not to extract.
    pub exclude: Vec<String>,
}

/// A natives jar as plain values.
pub struct NativeJarView {
    pub task: TaskView,
    pub destination: Seq<char>,
    pub exclude: Seq<Seq<char>>,
}

impl View for NativeJar {
    type V = NativeJarView;

    open spec fn view(&self) -> NativeJarView {
        NativeJarView { task: self.task@, destination: self.destination@, exclude: views(self.exclude@) }
    }
}

/// The resolution of a library list as plain values.
pub struct ResolvedView {
    pub classpath_tasks: Seq<TaskView>,
    pub classpath_entries: Seq<Seq<char>>,
    pub native_jars: Seq<NativeJarView>,
}

impl View for ResolvedLibraries {
    type V = ResolvedView;

    open spec fn view(&self) -> ResolvedView {
        ResolvedView {
            classpath_tasks: task_views(self.classpath_tasks@),
            classpath_entries: views(self.classpath_entries@),
            native_jars: self.native_jars@.map_values(|n: NativeJar| n@),
        }
    }
}

// ─── Maven coordinates ───────────────────────────────────────────────────────

/// `s` with every `from` replaced by `to`.
pub open spec fn map_char(s: Seq<char>, from: char, to: char) -> Seq<char> {
    s.map_values(|c: char| if c == from { to } else { c })
}

/// The repository path of a Maven coordinate
/// `group:artifact:version[:classifier]`, e.g. `net.fabricmc:fabric-loader:0.16.9`
/// → `net/fabricmc/fabric-loader/0.16.9/fabric-loader-0.16.9.jar`;
/// `None` for fewer than three parts. A fifth part and beyond is ignored.
pub open spec fn maven_path(coordinate: Seq<char>) -> Option<Seq<char>> {
    let p = split_on(coordinate, ':');
    if p.len() < 3 {
        None
    } else {
        let file = p[1] + seq!['-'] + p[2] + (if p.len() > 3 {
            seq!['-'] + p[3]
        } else {
            seq![]
        }) + ".jar"@;
        Some(map_char(p[0], '.', '/') + seq!['/'] + p[1] + seq!['/'] + p[2] + seq!['/'] + file)
    }
}

/// The part of a coordinate naming "the same library for the same
/// platform": `group:artifact:classifier` for four parts,
/// `group:artifact` for any other count of at least two, the coordinate
/// itself otherwise. Only the version is ignored.
pub open spec fn group_artifact_key(coordinate: Seq<char>) -> Seq<char> {
    let p = split_on(coordinate, ':');
    if p.len() == 4 {
        p[0] + seq![':'] + p[1] + seq![':'] + p[3]
    } else if p.len() >= 2 {
        p[0] + seq![':'] + p[1]
    } else {
        coordinate
    }
}

/// `s` with every `from` replaced by `to`.
pub fn replace_char(s: &str, from: char, to: char) -> (r: String)
    ensures
        r@ == map_char(s@, from, to),
{
    let c = chars_of(s);
    let mut r = String::new();
    let mut i: usize = 0;
    while i < c.len()
        invariant
            c@ == s@,
            0 <= i <= c.len(),
            r@ == map_char(s@.take(i as int), from, to),
        decreases c.len() - i,
    {
        if c[i] == from {
            push_char(&mut r, to);
        } else {
            push_char(&mut r, c[i]);
        }
        assert(map_char(s@.take(i + 1), from, to) =~= map_char(s@.take(i as int), from, to).push(
            map_char(s@, from, to)[i as int],
        ));
        i = i + 1;
    }
    assert(s@.take(c.len() as int) =~= s@);
    r
}

/// Converts a Maven coordinate into the path repositories serve it at.
pub fn maven_coordinate_to_path(coordinate: &str) -> (r: Result<String, MinecraftError>)
    ensures
        match maven_path(coordinate@) {
            Some(p) => r matches Ok(s) && s@ == p,
            None => r matches Err(MinecraftError::MalformedLibraryName(s)) && s@ == coordinate@,
        },
{
    let parts = split_on_char(coordinate, ':');
    if parts.len() < 3 {
        return Err(MinecraftError::MalformedLibraryName(owned(coordinate)));
    }
    let group = replace_char(parts[0].as_str(), '.', '/');
    let artifact = parts[1].as_str();
    let version = parts[2].as_str();
    let mut filename = owned(artifact);
    push_char(&mut filename, '-');
    filename.append(version);
    if parts.len() > 3 {
        push_char(&mut filename, '-');
        filename.append(parts[3].as_str());
    }
    filename.append(".jar");
    let mut path = group;
    push_char(&mut path, '/');
    path.append(artifact);
    push_char(&mut path, '/');
    path.append(version);
    push_char(&mut path, '/');
    path.append(filename.as_str());
    proof {
        let p = split_on(coordinate@, ':');
        assert(p[0] == parts@[0]@ && p[1] == parts@[1]@ && p[2] == parts@[2]@);
        if p.len() > 3 {
            assert(p[3] == parts@[3]@);
        }
        assert(path@ =~= maven_path(coordinate@)->0);
    }
    Ok(path)
}

/// For coordinates of three or four parts, two keys are equal exactly
/// when group, artifact and part count agree and, for four parts, the
/// classifier too: the version never matters, and distinct artifacts or
/// distinct platform classifiers never collapse into one key.
pub proof fn lemma_group_artifact_key_identity(x: Seq<char>, y: Seq<char>)
    requires
        3 <= split_on(x, ':').len() <= 4,
        3 <= split_on(y, ':').len() <= 4,
    ensures
        ({
            let px = split_on(x, ':');
            let py = split_on(y, ':');
            (group_artifact_key(x) == group_artifact_key(y)) <==> (px[0] == py[0] && px[1] == py[1]
                && px.len() == py.len() && (px.len() == 4 ==> px[3] == py[3]))
        }),
{
    let px = split_on(x, ':');
    let py = split_on(y, ':');
    lemma_split_on_pieces(x, ':');
    lemma_split_on_pieces(y, ':');
    assert(forall|i: int| 0 <= i < px[0].len() ==> #[trigger] px[0][i] != ':');
    assert(forall|i: int| 0 <= i < py[0].len() ==> #[trigger] py[0][i] != ':');
    assert(forall|i: int| 0 <= i < px[1].len() ==> #[trigger] px[1][i] != ':');
    assert(forall|i: int| 0 <= i < py[1].len() ==> #[trigger] py[1][i] != ':');
    if group_artifact_key(x) == group_artifact_key(y) {
        if px.len() == 4 && py.len() == 4 {
            assert(px[0] + seq![':'] + (px[1] + seq![':'] + px[3]) =~= group_artifact_key(x));
            assert(py[0] + seq![':'] + (py[1] + seq![':'] + py[3]) =~= group_artifact_key(y));
            lemma_split_at_first(px[0], px[1] + seq![':'] + px[3], py[0], py[1] + seq![':'] + py[3], ':');
            lemma_split_at_first(px[1], px[3], py[1], py[3], ':');
        } else if px.len() == 4 {
            assert(px[0] + seq![':'] + (px[1] + seq![':'] + px[3]) =~= group_artifact_key(x));
            lemma_split_at_first(px[0], px[1] + seq![':'] + px[3], py[0], py[1], ':');
            assert((px[1] + seq![':'] + px[3])[px[1].len() as int] == ':');
        } else if py.len() == 4 {
            assert(py[0] + seq![':'] + (py[1] + seq![':'] + py[3]) =~= group_artifact_key(y));
            lemma_split_at_first(px[0], px[1], py[0], py[1] + seq![':'] + py[3], ':');
            assert((py[1] + seq![':'] + py[3])[py[1].len() as int] == ':');
        } else {
            lemma_split_at_first(px[0], px[1], py[0], py[1], ':');
        }
    }
}

/// The de-duplication key of a coordinate (see [`group_artifact_key`]).
pub fn maven_group_artifact_key(coordinate: &str) -> (r: String)
    ensures
        r@ == group_artifact_key(coordinate@),
{
    let parts = split_on_char(coordinate, ':');
    proof {
        let p = split_on(coordinate@, ':');
        assert(p.len() == parts@.len());
        assert(forall|i: int| 0 <= i < p.len() ==> p[i] == #[trigger] parts@[i]@);
    }
    if parts.len() == 4 {
        let mut k = owned(parts[0].as_str());
        push_char(&mut k, ':');
        k.append(parts[1].as_str());
        push_char(&mut k, ':');
        k.append(parts[3].as_str());
        k
    } else if parts.len() >= 2 {
        let mut k = owned(parts[0].as_str());
        push_char(&mut k, ':');
        k.append(parts[1].as_str());
        k
    } else {
        owned(coordinate)
    }
}

// ─── De-duplication ──────────────────────────────────────────────────────────

/// The de-duplication key of a library.
pub open spec fn lib_key(l: Library) -> Seq<char> {
    group_artifact_key(l.name@)
}

/// Whether some library before position `i` has the same key as `libs[i]`.
pub open spec fn key_seen_before(libs: Seq<Library>, i: int) -> bool {
    exists|j: int| 0 <= j < i && lib_key(#[trigger] libs[j]) == lib_key(libs[i])
}

/// The position of the last library with key `k`, or `-1`.
pub open spec fn last_with_key(libs: Seq<Library>, k: Seq<char>) -> int
    decreases libs.len(),
{
    if libs.len() == 0 {
        -1
    } else if lib_key(libs.last()) == k {
        libs.len() - 1
    } else {
        last_with_key(libs.drop_last(), k)
    }
}

/// The de-duplication of the first `n` positions: for each position whose
/// key was not seen before, in order, the last library with that key.
pub open spec fn dedupe_prefix(libs: Seq<Library>, n: int) -> Seq<Library>
    decreases n,
{
    if n <= 0 {
        seq![]
    } else {
        let prev = dedupe_prefix(libs, n - 1);
        if key_seen_before(libs, n - 1) {
            prev
        } else {
            prev.push(libs[last_with_key(libs, lib_key(libs[n - 1]))])
        }
    }
}

/// One library per key: the last occurrence of each key, placed where the
/// key first appears.
pub open spec fn deduped(libs: Seq<Library>) -> Seq<Library> {
    dedupe_prefix(libs, libs.len() as int)
}

/// `last_with_key` finds the last position with the key, when there is one.
pub proof fn lemma_last_with_key(libs: Seq<Library>, k: Seq<char>)
    ensures
        -1 <= last_with_key(libs, k) < libs.len(),
        last_with_key(libs, k) >= 0 ==> lib_key(libs[last_with_key(libs, k)]) == k,
        forall|j: int|
            last_with_key(libs, k) < j < libs.len() ==> lib_key(#[trigger] libs[j]) != k,
        forall|j: int| 0 <= j < libs.len() && lib_key(#[trigger] libs[j]) == k ==> j <= last_with_key(libs, k),
    decreases libs.len(),
{
    if libs.len() > 0 && lib_key(libs.last()) != k {
        lemma_last_with_key(libs.drop_last(), k);
        assert forall|j: int| last_with_key(libs, k) < j < libs.len() implies lib_key(
            #[trigger] libs[j],
        ) != k by {
            if j < libs.len() - 1 {
                assert(libs[j] == libs.drop_last()[j]);
            }
        }
        assert forall|j: int| 0 <= j < libs.len() && lib_key(#[trigger] libs[j]) == k implies j
            <= last_with_key(libs, k) by {
            assert(libs[j] == libs.drop_last()[j]);
        }
    }
}

/// The last position of a key over a prefix, computed from the prefix
/// end: the step taken by the search loop.
pub proof fn lemma_last_with_key_take(libs: Seq<Library>, k: Seq<char>, j: int)
    requires
        0 < j <= libs.len(),
    ensures
        last_with_key(libs.take(j), k) == if lib_key(libs[j - 1]) == k {
            j - 1
        } else {
            last_with_key(libs.take(j - 1), k)
        },
{
    assert(libs.take(j).drop_last() =~= libs.take(j - 1));
}

/// Each survivor stands for a position whose key was not seen before, and
/// carries that key.
pub proof fn lemma_dedupe_members(libs: Seq<Library>, n: int)
    requires
        0 <= n <= libs.len(),
    ensures
        dedupe_prefix(libs, n).len() <= n,
        forall|q: int|
            0 <= q < dedupe_prefix(libs, n).len() ==> exists|m: int|
                0 <= m < n && !key_seen_before(libs, m) && #[trigger] dedupe_prefix(libs, n)[q]
                    == libs[last_with_key(libs, lib_key(libs[m]))] && lib_key(
                    dedupe_prefix(libs, n)[q],
                ) == lib_key(libs[m]),
    decreases n,
{
    if n > 0 {
        lemma_dedupe_members(libs, n - 1);
        lemma_last_with_key(libs, lib_key(libs[n - 1]));
        let d = dedupe_prefix(libs, n);
        let p = dedupe_prefix(libs, n - 1);
        assert forall|q: int| 0 <= q < d.len() implies exists|m: int|
            0 <= m < n && !key_seen_before(libs, m) && #[trigger] d[q] == libs[last_with_key(
                libs,
                lib_key(libs[m]),
            )] && lib_key(d[q]) == lib_key(libs[m]) by {
            if q < p.len() {
                assert(d[q] == p[q]);
                let m = choose|m: int|
                    0 <= m < n - 1 && !key_seen_before(libs, m) && #[trigger] p[q]
                        == libs[last_with_key(libs, lib_key(libs[m]))] && lib_key(p[q]) == lib_key(
                        libs[m],
                    );
                assert(0 <= m < n);
            } else {
                assert(!key_seen_before(libs, n - 1));
                assert(d[q] == libs[last_with_key(libs, lib_key(libs[n - 1]))]);
            }
        }
    }
}

/// Survivors have pairwise distinct keys.
pub proof fn lemma_dedupe_keys_distinct(libs: Seq<Library>, n: int)
    requires
        0 <= n <= libs.len(),
    ensures
        forall|a: int, b: int|
            0 <= a < b < dedupe_prefix(libs, n).len() ==> lib_key(
                #[trigger] dedupe_prefix(libs, n)[a],
            ) != lib_key(#[trigger] dedupe_prefix(libs, n)[b]),
    decreases n,
{
    if n > 0 {
        lemma_dedupe_keys_distinct(libs, n - 1);
        lemma_dedupe_members(libs, n - 1);
        lemma_last_with_key(libs, lib_key(libs[n - 1]));
        let d = dedupe_prefix(libs, n);
        let p = dedupe_prefix(libs, n - 1);
        if !key_seen_before(libs, n - 1) {
            assert forall|a: int, b: int| 0 <= a < b < d.len() implies lib_key(#[trigger] d[a])
                != lib_key(#[trigger] d[b]) by {
                assert(d[a] == p[a]);
                if b < p.len() {
                    assert(d[b] == p[b]);
                } else {
                    let m = choose|m: int|
                        0 <= m < n - 1 && !key_seen_before(libs, m) && #[trigger] p[a]
                            == libs[last_with_key(libs, lib_key(libs[m]))] && lib_key(p[a])
                            == lib_key(libs[m]);
                    assert(lib_key(d[b]) == lib_key(libs[n - 1]));
                    if lib_key(libs[m]) == lib_key(libs[n - 1]) {
                        assert(key_seen_before(libs, n - 1));
                    }
                }
            }
        }
    }
}

/// Every key of the input has a survivor.
pub proof fn lemma_dedupe_covers(libs: Seq<Library>, n: int)
    requires
        0 <= n <= libs.len(),
    ensures
        forall|i: int|
            0 <= i < n ==> exists|q: int|
                0 <= q < dedupe_prefix(libs, n).len() && lib_key(
                    #[trigger] dedupe_prefix(libs, n)[q],
                ) == lib_key(#[trigger] libs[i]),
    decreases n,
{
    if n > 0 {
        lemma_dedupe_covers(libs, n - 1);
        lemma_last_with_key(libs, lib_key(libs[n - 1]));
        let d = dedupe_prefix(libs, n);
        let p = dedupe_prefix(libs, n - 1);
        assert forall|i: int| 0 <= i < n implies exists|q: int|
            0 <= q < d.len() && lib_key(#[trigger] d[q]) == lib_key(#[trigger] libs[i]) by {
            if i < n - 1 {
                let q = choose|q: int|
                    0 <= q < p.len() && lib_key(#[trigger] p[q]) == lib_key(libs[i]);
                assert(d[q] == p[q]);
            } else if key_seen_before(libs, n - 1) {
                let j = choose|j: int| 0 <= j < n - 1 && lib_key(#[trigger] libs[j]) == lib_key(libs[n - 1]);
                let q = choose|q: int|
                    0 <= q < p.len() && lib_key(#[trigger] p[q]) == lib_key(libs[j]);
                assert(d[q] == p[q]);
            } else {
                assert(lib_key(d[p.len() as int]) == lib_key(libs[n - 1]));
            }
        }
    }
}

/// With no repeated key, de-duplication keeps the list as it is.
pub proof fn lemma_dedupe_no_duplicates(libs: Seq<Library>, n: int)
    requires
        0 <= n <= libs.len(),
        forall|a: int, b: int|
            0 <= a < b < libs.len() ==> lib_key(#[trigger] libs[a]) != lib_key(#[trigger] libs[b]),
    ensures
        dedupe_prefix(libs, n) == libs.take(n),
    decreases n,
{
    if n > 0 {
        lemma_dedupe_no_duplicates(libs, n - 1);
        lemma_last_with_key(libs, lib_key(libs[n - 1]));
        assert(!key_seen_before(libs, n - 1));
        assert(last_with_key(libs, lib_key(libs[n - 1])) == n - 1);
        assert(libs.take(n) =~= libs.take(n - 1).push(libs[n - 1]));
    }
}

/// What de-duplication promises: survivors have pairwise distinct keys,
/// every input key survives, each survivor is the last input library with
/// its key, and an input without repeated keys comes back unchanged —
/// so de-duplicating twice changes nothing more.
pub proof fn lemma_dedupe_laws(libs: Seq<Library>)
    ensures
        forall|a: int, b: int|
            0 <= a < b < deduped(libs).len() ==> lib_key(#[trigger] deduped(libs)[a]) != lib_key(
                #[trigger] deduped(libs)[b],
            ),
        forall|i: int|
            0 <= i < libs.len() ==> exists|q: int|
                0 <= q < deduped(libs).len() && lib_key(#[trigger] deduped(libs)[q]) == lib_key(
                    #[trigger] libs[i],
                ),
        forall|q: int|
            0 <= q < deduped(libs).len() ==> (#[trigger] deduped(libs)[q]) == libs[last_with_key(
                libs,
                lib_key(deduped(libs)[q]),
            )],
        (forall|a: int, b: int|
            0 <= a < b < libs.len() ==> lib_key(#[trigger] libs[a]) != lib_key(#[trigger] libs[b]))
            ==> deduped(libs) == libs,
        deduped(deduped(libs)) == deduped(libs),
{
    let n = libs.len() as int;
    lemma_dedupe_keys_distinct(libs, n);
    lemma_dedupe_covers(libs, n);
    lemma_dedupe_members(libs, n);
    let d = deduped(libs);
    assert forall|q: int| 0 <= q < d.len() implies (#[trigger] d[q]) == libs[last_with_key(
        libs,
        lib_key(d[q]),
    )] by {
        let m = choose|m: int|
            0 <= m < n && !key_seen_before(libs, m) && #[trigger] d[q] == libs[last_with_key(
                libs,
                lib_key(libs[m]),
            )] && lib_key(d[q]) == lib_key(libs[m]);
    }
    if forall|a: int, b: int|
        0 <= a < b < libs.len() ==> lib_key(#[trigger] libs[a]) != lib_key(#[trigger] libs[b]) {
        lemma_dedupe_no_duplicates(libs, n);
        assert(libs.take(n) =~= libs);
    }
    lemma_dedupe_no_duplicates(d, d.len() as int);
    assert(d.take(d.len() as int) =~= d);
}

/// Moves each element of `v` into a slot.
fn into_slots(v: Vec<Library>) -> (r: Vec<Option<Library>>)
    ensures
        r@.len() == v@.len(),
        forall|k: int| 0 <= k < v@.len() ==> r@[k] == Some(v@[k]),
{
    let ghost orig = v@;
    let mut slots: Vec<Option<Library>> = Vec::new();
    for x in it: v
        invariant
            it.seq() == orig,
            slots@.len() == it.index(),
            forall|k: int| 0 <= k < it.index() ==> slots@[k] == Some(orig[k]),
    {
        slots.push(Some(x));
    }
    slots
}

/// Collapses a library list to one entry per platform-specific Maven
/// artifact (see [`group_artifact_key`]), keeping the **last** occurrence of
/// each key, placed where the key **first** appears.
///
/// When a loader's libraries are appended after vanilla's, the loader's
/// pinned version of a shared dependency is the one that stays on the
/// classpath; platform variants distinguished only by classifier all stay.
pub fn dedupe_libraries_preferring_last(libraries: Vec<Library>) -> (r: Vec<Library>)
    ensures
        r@ == deduped(libraries@),
{
    let n = libraries.len();
    let ghost orig = libraries@;
    let mut keys: Vec<String> = Vec::new();
    let mut i: usize = 0;
    while i < n
        invariant
            n == libraries.len(),
            libraries@ == orig,
            0 <= i <= n,
            keys@.len() == i,
            forall|k: int| 0 <= k < i ==> (#[trigger] keys@[k])@ == lib_key(orig[k]),
        decreases n - i,
    {
        keys.push(maven_group_artifact_key(libraries[i].name.as_str()));
        i = i + 1;
    }
    let mut slots = into_slots(libraries);
    let mut out: Vec<Library> = Vec::new();
    let mut i: usize = 0;
    while i < n
        invariant
            n == orig.len(),
            0 <= i <= n,
            keys@.len() == n,
            forall|k: int| 0 <= k < n ==> (#[trigger] keys@[k])@ == lib_key(orig[k]),
            slots@.len() == n,
            forall|j: int|
                0 <= j < n ==> #[trigger] slots@[j] == Some(orig[j]) || (slots@[j] is None
                    && exists|m: int| 0 <= m < i && lib_key(orig[m]) == lib_key(orig[j])),
            out@ == dedupe_prefix(orig, i as int),
        decreases n - i,
    {
        // Was this key seen at an earlier position?
        let mut seen = false;
        let mut m: usize = 0;
        while m < i
            invariant
                0 <= m <= i < n,
                keys@.len() == n,
                forall|k: int| 0 <= k < n ==> (#[trigger] keys@[k])@ == lib_key(orig[k]),
                seen == exists|j: int| 0 <= j < m && lib_key(orig[j]) == lib_key(orig[i as int]),
            decreases i - m,
        {
            if str_eq(keys[m].as_str(), keys[i].as_str()) {
                assert(keys@[m as int]@ == lib_key(orig[m as int]));
                seen = true;
            }
            m = m + 1;
        }
        if !seen {
            // The last position with this key.
            let ghost k = lib_key(orig[i as int]);
            let mut j: usize = n;
            assert(orig.take(n as int) =~= orig);
            while j > 0 && !str_eq(keys[j - 1].as_str(), keys[i].as_str())
                invariant
                    n == orig.len(),
                    i < n,
                    0 <= j <= n,
                    keys@.len() == n,
                    forall|q: int| 0 <= q < n ==> (#[trigger] keys@[q])@ == lib_key(orig[q]),
                    k == lib_key(orig[i as int]),
                    last_with_key(orig, k) == last_with_key(orig.take(j as int), k),
                    orig.take(n as int) == orig,
                decreases j,
            {
                proof {
                    lemma_last_with_key_take(orig, k, j as int);
                }
                j = j - 1;
            }
            proof {
                lemma_last_with_key(orig, k);
                if j > 0 {
                    lemma_last_with_key_take(orig, k, j as int);
                } else {
                    assert(orig.take(0) =~= Seq::<Library>::empty());
                }
            }
            assert(j > 0);
            let jj = j - 1;
            assert(jj as int == last_with_key(orig, k));
            assert(jj >= i);
            assert(slots@[jj as int] == Some(orig[jj as int])) by {
                if slots@[jj as int] is None {
                    let m = choose|m: int| 0 <= m < i && lib_key(orig[m]) == lib_key(orig[jj as int]);
                    assert(key_seen_before(orig, i as int));
                }
            }
            let ghost before_slots = slots@;
            let taken = slots[jj].take();
            match taken {
                Some(lib) => {
                    out.push(lib);
                },
                None => {},
            }
            assert forall|q: int| 0 <= q < n implies #[trigger] slots@[q] == Some(orig[q]) || (
            slots@[q] is None && exists|m: int|
                0 <= m < i + 1 && lib_key(orig[m]) == lib_key(orig[q])) by {
                if q == jj {
                    assert(lib_key(orig[i as int]) == lib_key(orig[q]));
                } else {
                    assert(slots@[q] == before_slots[q]);
                }
            }
        } else {
            assert(key_seen_before(orig, i as int));
        }
        i = i + 1;
    }
    out
}

// ─── Resolution ──────────────────────────────────────────────────────────────

/// The first `natives` entry for `os`.
pub open spec fn native_classifier_for(entries: Seq<NativesEntry>, os: Seq<char>) -> Option<Seq<char>>
    decreases entries.len(),
{
    if entries.len() == 0 {
        None
    } else if entries[0].os@ == os {
        Some(entries[0].classifier@)
    } else {
        native_classifier_for(entries.drop_first(), os)
    }
}

/// The artifact of the first classifier entry named `k`.
pub open spec fn classifier_artifact(entries: Seq<ClassifierArtifact>, k: Seq<char>) -> Option<
    LibraryArtifact,
>
    decreases entries.len(),
{
    if entries.len() == 0 {
        None
    } else if entries[0].classifier@ == k {
        Some(entries[0].artifact)
    } else {
        classifier_artifact(entries.drop_first(), k)
    }
}

/// `"64"` when the architecture name contains `64`, else `"32"`.
pub open spec fn arch_bits_of(arch: Seq<char>) -> Seq<char> {
    if contains_seq(arch, "64"@) {
        "64"@
    } else {
        "32"@
    }
}

/// The default Maven repository for libraries given by coordinate only.
pub open spec fn default_library_repo() -> Seq<char> {
    "https://libraries.minecraft.net/"@
}

/// A repository base URL with a trailing `/`.
pub open spec fn with_trailing_slash(base: Seq<char>) -> Seq<char> {
    if base.len() > 0 && base.last() == '/' {
        base
    } else {
        base + seq!['/']
    }
}

/// The classpath jar of a library and its download: the resolved
/// `downloads.artifact` when there is one (with checksum and size), else
/// the Maven path of its name under its repository (`url`, or Mojang's),
/// with no checksum; `None` when neither exists.
pub open spec fn main_artifact(l: Library, dir: Seq<char>) -> Option<(Seq<char>, TaskView)> {
    if l.downloads is Some && l.downloads->0.artifact is Some {
        let a = l.downloads->0.artifact->0;
        let dest = path_join(dir, a.path@);
        Some(
            (
                dest,
                TaskView {
                    url: a.url@,
                    destination: dest,
                    sha1: Some(a.sha1@),
                    expected_size: Some(a.size),
                    label: "library: "@ + l.name@,
                },
            ),
        )
    } else {
        match maven_path(l.name@) {
            None => None,
            Some(p) => {
                let base = match l.url {
                    Some(u) => u@,
                    None => default_library_repo(),
                };
                let dest = path_join(dir, p);
                Some(
                    (
                        dest,
                        TaskView {
                            url: with_trailing_slash(base) + p,
                            destination: dest,
                            sha1: None,
                            expected_size: None,
                            label: "library: "@ + l.name@,
                        },
                    ),
                )
            },
        }
    }
}

/// The pre-1.19 natives jar of a library on `platform`: its `natives`
/// classifier for the OS (with `${arch}` replaced by the pointer width),
/// looked up in `downloads.classifiers`.
pub open spec fn native_artifact(l: Library, dir: Seq<char>, platform: Platform) -> Option<
    NativeJarView,
> {
    if l.natives is None || l.downloads is None {
        None
    } else {
        match native_classifier_for(l.natives->0@, mojang_os(platform.os@)) {
            None => None,
            Some(raw) => {
                let classifier = replace_all(raw, "${arch}"@, arch_bits_of(platform.arch@));
                match classifier_artifact(l.downloads->0.classifiers@, classifier) {
                    None => None,
                    Some(a) => {
                        let dest = path_join(dir, a.path@);
                        Some(
                            NativeJarView {
                                task: TaskView {
                                    url: a.url@,
                                    destination: dest,
                                    sha1: Some(a.sha1@),
                                    expected_size: Some(a.size),
                                    label: "natives: "@ + l.name@,
                                },
                                destination: dest,
                                exclude: match l.extract {
                                    Some(e) => views(e.exclude@),
                                    None => seq![],
                                },
                            },
                        )
                    },
                }
            },
        }
    }
}

/// The resolution after one more library: skipped when its rules do not
/// admit the platform or it has no resolvable jar; otherwise its jar joins
/// the classpath, and its natives jar, if any, the natives.
pub open spec fn resolve_step(prev: ResolvedView, l: Library, dir: Seq<char>, platform: Platform) -> ResolvedView {
    if !rules_admit(l.rules@, Set::empty(), platform) {
        prev
    } else {
        match main_artifact(l, dir) {
            None => prev,
            Some((dest, task)) => ResolvedView {
                classpath_tasks: prev.classpath_tasks.push(task),
                classpath_entries: prev.classpath_entries.push(dest),
                native_jars: match native_artifact(l, dir, platform) {
                    Some(nj) => prev.native_jars.push(nj),
                    None => prev.native_jars,
                },
            },
        }
    }
}

/// The resolution of a whole library list, in list order.
pub open spec fn resolved(libs: Seq<Library>, dir: Seq<char>, platform: Platform) -> ResolvedView
    decreases libs.len(),
{
    if libs.len() == 0 {
        ResolvedView { classpath_tasks: seq![], classpath_entries: seq![], native_jars: seq![] }
    } else {
        resolve_step(resolved(libs.drop_last(), dir, platform), libs.last(), dir, platform)
    }
}

/// Adding one library to a list: one the rules keep out of the platform
/// changes nothing; one they admit, with a jar, adds that jar to the end of
/// the classpath and its download to the end of the downloads, and its
/// natives jar, when it has one on the platform, to the end of the natives
/// jars, everything resolved before staying as it was.
pub proof fn lemma_resolved_push(libs: Seq<Library>, l: Library, dir: Seq<char>, platform: Platform)
    ensures
        !rules_admit(l.rules@, Set::empty(), platform) ==> resolved(libs.push(l), dir, platform) == resolved(
            libs,
            dir,
            platform,
        ),
        rules_admit(l.rules@, Set::empty(), platform) ==> match main_artifact(l, dir) {
            None => resolved(libs.push(l), dir, platform) == resolved(libs, dir, platform),
            Some((dest, task)) => {
                let before = resolved(libs, dir, platform);
                let after = resolved(libs.push(l), dir, platform);
                &&& after.classpath_entries == before.classpath_entries.push(dest)
                &&& after.classpath_tasks == before.classpath_tasks.push(task)
                &&& after.native_jars == match native_artifact(l, dir, platform) {
                    Some(nj) => before.native_jars.push(nj),
                    None => before.native_jars,
                }
            },
        },
{
    assert(libs.push(l).drop_last() =~= libs);
    assert(libs.push(l).last() == l);
}

/// The classpath jar of a library and its download (see [`main_artifact`]).
pub fn resolve_main_artifact(library: &Library, libraries_dir: &str) -> (r: Option<(String, DownloadTask)>)
    ensures
        match main_artifact(*library, libraries_dir@) {
            None => r is None,
            Some((d, t)) => r matches Some((rd, rt)) && rd@ == d && rt@ == t,
        },
{
    if let Some(downloads) = &library.downloads {
        if let Some(artifact) = &downloads.artifact {
            let destination = join_path(libraries_dir, artifact.path.as_str());
            let label = concat2("library: ", library.name.as_str());
            let task = DownloadTask::new(artifact.url.as_str(), destination.as_str(), label.as_str())
                .with_sha1(artifact.sha1.as_str()).with_size(artifact.size);
            return Some((destination, task));
        }
    }
    assert(!(library.downloads is Some && library.downloads->0.artifact is Some));
    let path = match maven_coordinate_to_path(library.name.as_str()) {
        Ok(p) => p,
        Err(_) => {
            assert(maven_path(library.name@) is None);
            return None;
        },
    };
    assert(maven_path(library.name@) == Some(path@));
    let base = match &library.url {
        Some(u) => owned(u.as_str()),
        None => owned("https://libraries.minecraft.net/"),
    };
    let base = if ends_with_char(base.as_str(), '/') {
        base
    } else {
        let mut b = base;
        push_char(&mut b, '/');
        b
    };
    let destination = join_path(libraries_dir, path.as_str());
    let url = concat2(base.as_str(), path.as_str());
    let label = concat2("library: ", library.name.as_str());
    let task = DownloadTask::new(url.as_str(), destination.as_str(), label.as_str());
    assert(base@ == with_trailing_slash(match library.url {
        Some(u) => u@,
        None => default_library_repo(),
    }));
    Some((destination, task))
}

/// `"64"` when the architecture name contains `64`, else `"32"`.
pub fn arch_bits(arch: &str) -> (r: &'static str)
    ensures
        r@ == arch_bits_of(arch@),
{
    if contains(arch, "64") {
        "64"
    } else {
        "32"
    }
}

/// The first `natives` entry for `os`.
fn find_native_classifier(entries: &Vec<NativesEntry>, os: &str) -> (r: Option<String>)
    ensures
        opt_str_view(r) == native_classifier_for(entries@, os@),
{
    let mut i: usize = 0;
    assert(entries@.skip(0) =~= entries@);
    while i < entries.len()
        invariant
            0 <= i <= entries.len(),
            native_classifier_for(entries@, os@) == native_classifier_for(entries@.skip(i as int), os@),
        decreases entries.len() - i,
    {
        assert(entries@.skip(i as int).drop_first() =~= entries@.skip(i + 1));
        if str_eq(entries[i].os.as_str(), os) {
            return Some(owned(entries[i].classifier.as_str()));
        }
        i = i + 1;
    }
    None
}

/// The characters of an optional string.
pub open spec fn opt_str_view(o: Option<String>) -> Option<Seq<char>> {
    match o {
        Some(s) => Some(s@),
        None => None,
    }
}

/// The artifact of the first classifier entry named `k`.
fn find_classifier_artifact<'a>(entries: &'a Vec<ClassifierArtifact>, k: &str) -> (r: Option<&'a LibraryArtifact>)
    ensures
        match classifier_artifact(entries@, k@) {
            None => r is None,
            Some(a) => r matches Some(ra) && *ra == a,
        },
{
    let mut i: usize = 0;
    assert(entries@.skip(0) =~= entries@);
    while i < entries.len()
        invariant
            0 <= i <= entries.len(),
            classifier_artifact(entries@, k@) == classifier_artifact(entries@.skip(i as int), k@),
        decreases entries.len() - i,
    {
        assert(entries@.skip(i as int).drop_first() =~= entries@.skip(i + 1));
        if str_eq(entries[i].classifier.as_str(), k) {
            return Some(&entries[i].artifact);
        }
        i = i + 1;
    }
    None
}

/// The classifier of the first `natives` entry naming `os`.
proof fn lemma_native_classifier_first(entries: Seq<NativesEntry>, os: Seq<char>, k: int)
    requires
        0 <= k < entries.len(),
        entries[k].os@ == os,
        forall|j: int| 0 <= j < k ==> (#[trigger] entries[j]).os@ != os,
    ensures
        native_classifier_for(entries, os) == Some(entries[k].classifier@),
    decreases k,
{
    if k > 0 {
        let rest = entries.drop_first();
        assert forall|j: int| 0 <= j < k - 1 implies (#[trigger] rest[j]).os@ != os by {
            assert(rest[j] == entries[j + 1]);
        }
        assert(entries[0].os@ != os);
        lemma_native_classifier_first(rest, os, k - 1);
    }
}

/// The artifact of the first classifier entry named `c`.
proof fn lemma_classifier_artifact_first(entries: Seq<ClassifierArtifact>, c: Seq<char>, m: int)
    requires
        0 <= m < entries.len(),
        entries[m].classifier@ == c,
        forall|j: int| 0 <= j < m ==> (#[trigger] entries[j]).classifier@ != c,
    ensures
        classifier_artifact(entries, c) == Some(entries[m].artifact),
    decreases m,
{
    if m > 0 {
        let rest = entries.drop_first();
        assert forall|j: int| 0 <= j < m - 1 implies (#[trigger] rest[j]).classifier@ != c by {
            assert(rest[j] == entries[j + 1]);
        }
        assert(entries[0].classifier@ != c);
        lemma_classifier_artifact_first(rest, c, m - 1);
    }
}

/// Natives are looked up under Mojang's OS name: on a platform whose OS
/// Rust calls `macos`, a library whose first `natives` entry for `osx`
/// names a classifier that `downloads.classifiers` lists resolves to that
/// classifier's artifact, stored at its path under the libraries
/// directory and labelled by the library's name.
pub proof fn lemma_macos_natives_use_osx_entry(
    l: Library,
    dir: Seq<char>,
    platform: Platform,
    k: int,
    m: int,
)
    requires
        platform.os@ == "macos"@,
        l.natives matches Some(ns) && 0 <= k < ns@.len() && ns@[k].os@ == "osx"@ && forall|j: int|
            0 <= j < k ==> (#[trigger] ns@[j]).os@ != "osx"@,
        l.downloads matches Some(d) && 0 <= m < d.classifiers@.len() && d.classifiers@[m].classifier@
            == replace_all(l.natives->0@[k].classifier@, "${arch}"@, arch_bits_of(platform.arch@)) && forall|
            j: int,
        |
            0 <= j < m ==> (#[trigger] d.classifiers@[j]).classifier@ != d.classifiers@[m].classifier@,
    ensures
        native_artifact(l, dir, platform) matches Some(nj) && nj.destination == path_join(
            dir,
            l.downloads->0.classifiers@[m].artifact.path@,
        ) && nj.task.url == l.downloads->0.classifiers@[m].artifact.url@ && nj.task.sha1 == Some(
            l.downloads->0.classifiers@[m].artifact.sha1@,
        ) && nj.task.label == "natives: "@ + l.name@,
{
    reveal_strlit("macos");
    reveal_strlit("osx");
    assert(mojang_os(platform.os@) == "osx"@);
    lemma_native_classifier_first(l.natives->0@, "osx"@, k);
    let d = l.downloads->0;
    lemma_classifier_artifact_first(d.classifiers@, d.classifiers@[m].classifier@, m);
}

/// Which natives jar a library resolves to depends on the OS only through
/// its Mojang name: two platforms with the same architecture whose OS names
/// agree the Mojang way (`macos` and `osx`, say) resolve alike.
pub proof fn lemma_native_artifact_by_mojang_name(l: Library, dir: Seq<char>, p: Platform, q: Platform)
    requires
        mojang_os(p.os@) == mojang_os(q.os@),
        p.arch@ == q.arch@,
    ensures
        native_artifact(l, dir, p) == native_artifact(l, dir, q),
{
}

/// The pre-1.19 natives jar of a library (see [`native_artifact`]).
pub fn resolve_native_artifact(library: &Library, libraries_dir: &str, platform: &Platform) -> (r: Option<NativeJar>)
    ensures
        match native_artifact(*library, libraries_dir@, *platform) {
            None => r is None,
            Some(v) => r matches Some(n) && n@ == v,
        },
{
    let natives_map = match &library.natives {
        Some(m) => m,
        None => {
            return None;
        },
    };
    let downloads = match &library.downloads {
        Some(d) => d,
        None => {
            return None;
        },
    };
    let os = mojang_os_name(platform.os.as_str());
    let raw_classifier = match find_native_classifier(natives_map, os.as_str()) {
        Some(c) => c,
        None => {
            return None;
        },
    };
    proof {
        reveal_strlit("${arch}");
    }
    let classifier = replace(raw_classifier.as_str(), "${arch}", arch_bits(platform.arch.as_str()));
    let artifact = match find_classifier_artifact(&downloads.classifiers, classifier.as_str()) {
        Some(a) => a,
        None => {
            return None;
        },
    };
    let destination = join_path(libraries_dir, artifact.path.as_str());
    let exclude = match &library.extract {
        Some(e) => copy_strings(&e.exclude),
        None => Vec::new(),
    };
    let label = concat2("natives: ", library.name.as_str());
    let task = DownloadTask::new(artifact.url.as_str(), destination.as_str(), label.as_str())
        .with_sha1(artifact.sha1.as_str()).with_size(artifact.size);
    proof {
        reveal_strlit("${arch}");
    }
    let r = NativeJar { task, destination, exclude };
    assert(r@.exclude =~= match library.extract {
        Some(e) => views(e.exclude@),
        None => seq![],
    });
    Some(r)
}

/// A copy of a list of strings.
pub fn copy_strings(v: &Vec<String>) -> (r: Vec<String>)
    ensures
        views(r@) == views(v@),
{
    let mut r: Vec<String> = Vec::new();
    let mut i: usize = 0;
    while i < v.len()
        invariant
            0 <= i <= v.len(),
            views(r@) == views(v@.take(i as int)),
        decreases v.len() - i,
    {
        let ghost before = r@;
        let c = v[i].clone();
        r.push(c);
        assert(r@ =~= before.push(v@[i as int]));
        assert(v@.take(i + 1) =~= v@.take(i as int).push(v@[i as int]));
        assert(views(r@) =~= views(before).push(v@[i as int]@));
        assert(views(v@.take(i + 1)) =~= views(v@.take(i as int)).push(v@[i as int]@));
        assert(views(r@) =~= views(v@.take(i + 1)));
        i = i + 1;
    }
    assert(v@.take(v.len() as int) =~= v@);
    r
}

/// Filters `libraries` down to the ones whose rules admit `platform` and
/// that have a resolvable jar, and builds their downloads and the
/// classpath in the manifest's own library order (first listed wins on
/// conflicts, so the order is kept), plus the natives jars to unpack.
pub fn resolve_libraries(libraries: &[Library], libraries_dir: &str, platform: &Platform) -> (r: ResolvedLibraries)
    ensures
        r@ == resolved(libraries@, libraries_dir@, *platform),
{
    let mut out = ResolvedLibraries {
        classpath_tasks: Vec::new(),
        classpath_entries: Vec::new(),
        native_jars: Vec::new(),
    };
    let features = FeatureFlags::new();
    let mut i: usize = 0;
    assert(libraries@.take(0) =~= Seq::<Library>::empty());
    assert(out@.classpath_tasks =~= Seq::<TaskView>::empty());
    assert(out@.classpath_entries =~= Seq::<Seq<char>>::empty());
    assert(out@.native_jars =~= Seq::<NativeJarView>::empty());
    while i < libraries.len()
        invariant
            0 <= i <= libraries.len(),
            features@ == Set::<Seq<char>>::empty(),
            out@ == resolved(libraries@.take(i as int), libraries_dir@, *platform),
        decreases libraries.len() - i,
    {
        let library = &libraries[i];
        assert(libraries@.take(i + 1).drop_last() =~= libraries@.take(i as int));
        let ghost prev = out@;
        if rules_allow(library.rules.as_slice(), &features, platform) {
            match resolve_main_artifact(library, libraries_dir) {
                Some((destination, task)) => {
                    out.classpath_entries.push(destination);
                    out.classpath_tasks.push(task);
                    match resolve_native_artifact(library, libraries_dir, platform) {
                        Some(native_jar) => {
                            out.native_jars.push(native_jar);
                        },
                        None => {},
                    }
                    assert(out@.classpath_tasks =~= prev.classpath_tasks.push(task@));
                    assert(out@.classpath_entries =~= prev.classpath_entries.push(destination@));
                    assert(out@.native_jars =~= match native_artifact(*library, libraries_dir@, *platform) {
                        Some(nj) => prev.native_jars.push(nj),
                        None => prev.native_jars,
                    });
                },
                None => {},
            }
        }
        i = i + 1;
    }
    assert(libraries@.take(libraries.len() as int) =~= libraries@);
    out
}

/// Whether an entry of a natives jar is unpacked: files only, and none
/// whose name starts with an excluded prefix.
pub open spec fn extracted_entry(name: Seq<char>, is_dir: bool, exclude: Seq<Seq<char>>) -> bool {
    !is_dir && !exists|k: int| 0 <= k < exclude.len() && (#[trigger] exclude[k]).is_prefix_of(name)
}

/// Decides whether one entry of a natives jar is unpacked (see
/// [`extracted_entry`]).
pub fn should_extract_entry(name: &str, is_dir: bool, exclude: &[String]) -> (r: bool)
    ensures
        r == extracted_entry(name@, is_dir, views(exclude@)),
{
    if is_dir {
        return false;
    }
    let mut k: usize = 0;
    while k < exclude.len()
        invariant
            0 <= k <= exclude.len(),
            forall|j: int| 0 <= j < k ==> !(#[trigger] views(exclude@)[j]).is_prefix_of(name@),
        decreases exclude.len() - k,
    {
        let p = exclude[k].as_str();
        let hit = crate::text::starts_with(name, p);
        proof {
            assert(views(exclude@)[k as int] == p@);
            if hit {
                assert(name@.take(p@.len() as int) =~= name@.subrange(0, p@.len() as int));
            } else if p@.len() <= name@.len() {
                assert(name@.take(p@.len() as int) =~= name@.subrange(0, p@.len() as int));
            }
        }
        if hit {
            return false;
        }
        k = k + 1;
    }
    true
}

/// Where an entry of a natives jar is unpacked: its name joined onto
/// `natives_dir`, or nowhere when [`extracted_entry`] skips it.
pub open spec fn native_target(natives_dir: Seq<char>, name: Seq<char>, is_dir: bool, exclude: Seq<Seq<char>>) -> Option<
    Seq<char>,
> {
    if extracted_entry(name, is_dir, exclude) {
        Some(path_join(natives_dir, name))
    } else {
        None
    }
}

/// Where an entry named `name` is unpacked (see [`native_target`]).
pub fn native_target_for(natives_dir: &str, name: &str, is_dir: bool, exclude: &[String]) -> (r: Option<String>)
    ensures
        match native_target(natives_dir@, name@, is_dir, views(exclude@)) {
            Some(p) => r matches Some(x) && x@ == p,
            None => r is None,
        },
{
    if should_extract_entry(name, is_dir, exclude) {
        Some(join_path(natives_dir, name))
    } else {
        None
    }
}

/// How many entries the natives jar `jar_bytes` holds; an archive the zip
/// reader refuses is an extraction error naming the jar.
pub fn native_jar_entry_count(jar_path: &str, jar_bytes: &[u8]) -> (r: Result<usize, MinecraftError>)
    ensures
        match zip_entry_count_of(jar_bytes@) {
            Ok(n) => r == Ok::<usize, MinecraftError>(n),
            Err(m) => r matches Err(MinecraftError::NativeExtraction(x)) && x@ == jar_path@ + ": "@ + m,
        },
{
    match zip_entry_count(jar_bytes) {
        Ok(n) => Ok(n),
        Err(m) => Err(MinecraftError::NativeExtraction(concat3(jar_path, ": ", m.as_str()))),
    }
}

/// Where entry `index` of the natives jar `jar_bytes` is unpacked (see
/// [`native_target`]), `None` when it is skipped; an entry the zip reader
/// cannot open is an extraction error with its message.
pub fn native_entry_target(jar_bytes: &[u8], index: usize, natives_dir: &str, exclude: &[String]) -> (r: Result<
    Option<String>,
    MinecraftError,
>)
    ensures
        match zip_entry_header_of(jar_bytes@, index) {
            Ok((name, is_dir)) => match native_target(natives_dir@, name, is_dir, views(exclude@)) {
                Some(p) => r matches Ok(Some(x)) && x@ == p,
                None => r matches Ok(None),
            },
            Err(m) => r matches Err(MinecraftError::NativeExtraction(x)) && x@ == m,
        },
{
    match zip_entry_header(jar_bytes, index) {
        Ok((name, is_dir)) => Ok(native_target_for(natives_dir, name.as_str(), is_dir, exclude)),
        Err(m) => Err(MinecraftError::NativeExtraction(m)),
    }
}

/// The decompressed contents of entry `index` of the natives jar
/// `jar_bytes`, or the zip reader's message.
pub fn native_entry_data(jar_bytes: &[u8], index: usize) -> (r: Result<Vec<u8>, String>)
    ensures
        match zip_entry_data_of(jar_bytes@, index) {
            Ok(d) => r matches Ok(v) && v@ == d,
            Err(m) => r matches Err(x) && x@ == m,
        },
{
    zip_entry_data(jar_bytes, index)
}

} // verus!
