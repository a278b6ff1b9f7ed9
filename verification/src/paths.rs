//! The on-disk layout of the launcher, resolved from one app-data root.
//!
//! Shared across every instance: the client-jar, library and asset caches
//! (content-addressed, so sharing is free) and the managed Java runtimes.
//! Isolated per instance: everything under `instances/<instance-id>/`.
//!
//! Paths are text with `/` separators; joining follows `Path::join` on
//! Unix: a segment starting with `/` replaces the base, otherwise a `/` is
//! inserted unless the base is empty or already ends with one.
use vstd::prelude::*;

use crate::ids::{Uuid, hyphenated_form, lemma_hyphenated_injective, lemma_hyphenated_shape};
use crate::text::{chars_of, concat2, owned, push_char};

verus! {

broadcast use vstd::array::group_array_axioms;

/// `base` joined with `seg`.
pub open spec fn path_join(base: Seq<char>, seg: Seq<char>) -> Seq<char> {
    if seg.len() > 0 && seg[0] == '/' {
        seg
    } else if base.len() == 0 || base.last() == '/' {
        base + seg
    } else {
        base + seq!['/'] + seg
    }
}

/// `base` joined with `seg`, as `Path::join` does on Unix.
pub fn join_path(base: &str, seg: &str) -> (r: String)
    ensures
        r@ == path_join(base@, seg@),
{
    let s = chars_of(seg);
    if s.len() > 0 && s[0] == '/' {
        return owned(seg);
    }
    let b = chars_of(base);
    if b.len() == 0 || b[b.len() - 1] == '/' {
        concat2(base, seg)
    } else {
        let mut r = owned(base);
        push_char(&mut r, '/');
        r.append(seg);
        r
    }
}

/// Whether `c` is one of the characters Windows rejects in file names.
pub open spec fn is_unsafe_path_char(c: char) -> bool {
    c == '<' || c == '>' || c == ':' || c == '"' || c == '/' || c == '\\' || c == '|' || c == '?'
        || c == '*'
}

/// `s` with every unsafe character replaced by `_`.
pub open spec fn sanitized(s: Seq<char>) -> Seq<char> {
    s.map_values(|c: char| if is_unsafe_path_char(c) { '_' } else { c })
}

/// Turns a version string into something safe to use as a single path
/// segment on every supported OS: `<>:"/\|?*` become `_`.
pub fn sanitize_path_segment(raw: &str) -> (r: String)
    ensures
        r@ == sanitized(raw@),
        r@.len() == raw@.len(),
        forall|i: int| 0 <= i < r@.len() ==> !is_unsafe_path_char(#[trigger] r@[i]),
        sanitized(r@) == r@,
{
    let c = chars_of(raw);
    let mut r = String::new();
    let mut i: usize = 0;
    while i < c.len()
        invariant
            c@ == raw@,
            0 <= i <= c.len(),
            r@ == sanitized(raw@.take(i as int)),
        decreases c.len() - i,
    {
        let ch = c[i];
        if ch == '<' || ch == '>' || ch == ':' || ch == '"' || ch == '/' || ch == '\\' || ch == '|'
            || ch == '?' || ch == '*' {
            push_char(&mut r, '_');
        } else {
            push_char(&mut r, ch);
        }
        assert(sanitized(raw@.take(i + 1)) =~= sanitized(raw@.take(i as int)).push(
            sanitized(raw@)[i as int],
        ));
        i = i + 1;
    }
    assert(raw@.take(c.len() as int) =~= raw@);
    assert(sanitized(r@) =~= r@);
    r
}

/// The cache root of a launcher root.
pub open spec fn cache_dir_of(root: Seq<char>) -> Seq<char> {
    path_join(root, "cache"@)
}

/// The shared client-jar cache.
pub open spec fn versions_dir_of(root: Seq<char>) -> Seq<char> {
    path_join(cache_dir_of(root), "versions"@)
}

/// The shared asset cache.
pub open spec fn assets_dir_of(root: Seq<char>) -> Seq<char> {
    path_join(cache_dir_of(root), "assets"@)
}

/// Where all instances live.
pub open spec fn instances_dir_of(root: Seq<char>) -> Seq<char> {
    path_join(root, "instances"@)
}

/// One instance's directory.
pub open spec fn instance_dir_of(root: Seq<char>, id: Seq<u8>) -> Seq<char> {
    path_join(instances_dir_of(root), hyphenated_form(id))
}

/// One instance's game directory.
pub open spec fn instance_game_dir_of(root: Seq<char>, id: Seq<u8>) -> Seq<char> {
    path_join(instance_dir_of(root, id), "minecraft"@)
}

/// Where a cached Fabric profile for a game and loader version lives.
pub open spec fn fabric_profile_path_of(root: Seq<char>, game: Seq<char>, loader: Seq<char>) -> Seq<
    char,
> {
    path_join(
        path_join(path_join(cache_dir_of(root), "fabric"@), sanitized(game)),
        sanitized(loader) + ".json"@,
    )
}

/// Every path the launcher uses, resolved from one app-data root.
#[derive(Debug, Clone)]
pub struct LauncherPaths {
    root: String,
}

impl View for LauncherPaths {
    type V = Seq<char>;

    closed spec fn view(&self) -> Seq<char> {
        self.root@
    }
}

impl LauncherPaths {
    /// The layout rooted at `root`.
    pub fn new(root: String) -> (p: LauncherPaths)
        ensures
            p@ == root@,
    {
        LauncherPaths { root }
    }

    /// The app-data root.
    pub fn root(&self) -> (r: &String)
        ensures
            r@ == self@,
    {
        &self.root
    }

    /// `<root>/launcher.db`.
    pub fn database_file(&self) -> (r: String)
        ensures
            r@ == path_join(self@, "launcher.db"@),
    {
        join_path(self.root.as_str(), "launcher.db")
    }

    /// `<root>/cache`.
    fn cache_dir(&self) -> (r: String)
        ensures
            r@ == cache_dir_of(self@),
    {
        join_path(self.root.as_str(), "cache")
    }

    /// `<root>/cache/libraries` (shared, content-addressed by Maven path).
    pub fn libraries_dir(&self) -> (r: String)
        ensures
            r@ == path_join(cache_dir_of(self@), "libraries"@),
    {
        join_path(self.cache_dir().as_str(), "libraries")
    }

    /// `<root>/cache/assets` (shared, content-addressed by SHA-1).
    pub fn assets_dir(&self) -> (r: String)
        ensures
            r@ == assets_dir_of(self@),
    {
        join_path(self.cache_dir().as_str(), "assets")
    }

    /// `<assets>/indexes/<id>.json`.
    pub fn asset_index_path(&self, asset_index_id: &str) -> (r: String)
        ensures
            r@ == path_join(path_join(assets_dir_of(self@), "indexes"@), asset_index_id@ + ".json"@),
    {
        let dir = join_path(self.assets_dir().as_str(), "indexes");
        let file = concat2(asset_index_id, ".json");
        join_path(dir.as_str(), file.as_str())
    }

    /// `<root>/cache/java` (managed runtimes, shared).
    pub fn java_runtimes_dir(&self) -> (r: String)
        ensures
            r@ == path_join(cache_dir_of(self@), "java"@),
    {
        join_path(self.cache_dir().as_str(), "java")
    }

    /// `<root>/cache/versions`.
    fn versions_dir(&self) -> (r: String)
        ensures
            r@ == versions_dir_of(self@),
    {
        join_path(self.cache_dir().as_str(), "versions")
    }

    /// `<versions>/<id>/<id>.json`.
    pub fn version_json_path(&self, version_id: &str) -> (r: String)
        ensures
            r@ == path_join(path_join(versions_dir_of(self@), version_id@), version_id@ + ".json"@),
    {
        let dir = join_path(self.versions_dir().as_str(), version_id);
        let file = concat2(version_id, ".json");
        join_path(dir.as_str(), file.as_str())
    }

    /// `<versions>/<id>/<id>.jar` — always keyed by the vanilla version id,
    /// even for a Fabric instance, since the jar is unmodified vanilla.
    pub fn version_jar_path(&self, version_id: &str) -> (r: String)
        ensures
            r@ == path_join(path_join(versions_dir_of(self@), version_id@), version_id@ + ".jar"@),
    {
        let dir = join_path(self.versions_dir().as_str(), version_id);
        let file = concat2(version_id, ".jar");
        join_path(dir.as_str(), file.as_str())
    }

    /// `<root>/cache/fabric/<game>/<loader>.json`, each version made safe as
    /// a path segment. Keyed by both versions, since each combination has
    /// its own library list and main class.
    pub fn fabric_profile_path(&self, game_version: &str, loader_version: &str) -> (r: String)
        ensures
            r@ == fabric_profile_path_of(self@, game_version@, loader_version@),
    {
        let fabric = join_path(self.cache_dir().as_str(), "fabric");
        let game = sanitize_path_segment(game_version);
        let dir = join_path(fabric.as_str(), game.as_str());
        let loader = sanitize_path_segment(loader_version);
        let file = concat2(loader.as_str(), ".json");
        join_path(dir.as_str(), file.as_str())
    }

    /// `<root>/instances`.
    pub fn instances_dir(&self) -> (r: String)
        ensures
            r@ == instances_dir_of(self@),
    {
        join_path(self.root.as_str(), "instances")
    }

    /// `<root>/instances/<instance-id>`.
    pub fn instance_dir(&self, instance_id: Uuid) -> (r: String)
        ensures
            r@ == instance_dir_of(self@, instance_id.bytes@),
    {
        let id = instance_id.to_hyphenated_string();
        join_path(self.instances_dir().as_str(), id.as_str())
    }

    /// `<instance>/minecraft`: the directory the game sees as its
    /// `.minecraft` (saves, mods, config, logs).
    pub fn instance_game_dir(&self, instance_id: Uuid) -> (r: String)
        ensures
            r@ == instance_game_dir_of(self@, instance_id.bytes@),
    {
        join_path(self.instance_dir(instance_id).as_str(), "minecraft")
    }

    /// `<instance>/natives/<version-id>`.
    pub fn instance_natives_dir(&self, instance_id: Uuid, version_id: &str) -> (r: String)
        ensures
            r@ == path_join(path_join(instance_dir_of(self@, instance_id.bytes@), "natives"@), version_id@),
    {
        let dir = join_path(self.instance_dir(instance_id).as_str(), "natives");
        join_path(dir.as_str(), version_id)
    }

    /// `<instance>/minecraft/logs`.
    pub fn instance_logs_dir(&self, instance_id: Uuid) -> (r: String)
        ensures
            r@ == path_join(instance_game_dir_of(self@, instance_id.bytes@), "logs"@),
    {
        join_path(self.instance_game_dir(instance_id).as_str(), "logs")
    }
}

// ─── Laws ────────────────────────────────────────────────────────────────────

/// Joining a segment that neither is empty nor starts with `/` onto a base
/// that neither is empty nor ends with `/` puts exactly one `/` between.
pub proof fn lemma_join_plain(base: Seq<char>, seg: Seq<char>)
    requires
        base.len() > 0,
        base.last() != '/',
        seg.len() > 0,
        seg[0] != '/',
    ensures
        path_join(base, seg) == base + seq!['/'] + seg,
        path_join(base, seg).last() == seg.last(),
{
}

/// No two instances share a directory or a game directory: instance
/// storage is isolated per instance id.
pub proof fn lemma_instance_dirs_isolated(root: Seq<char>, a: Uuid, b: Uuid)
    requires
        a != b,
    ensures
        instance_dir_of(root, a.bytes@) != instance_dir_of(root, b.bytes@),
        instance_game_dir_of(root, a.bytes@) != instance_game_dir_of(root, b.bytes@),
{
    reveal_strlit("instances");
    reveal_strlit("minecraft");
    let base = instances_dir_of(root);
    let ha = hyphenated_form(a.bytes@);
    let hb = hyphenated_form(b.bytes@);
    lemma_hyphenated_shape(a.bytes@);
    lemma_hyphenated_shape(b.bytes@);
    assert(ha[0] != '/');
    assert(hb[0] != '/');
    assert(ha.last() == ha[35]);
    assert(hb.last() == hb[35]);
    assert(base.len() > 0 && base.last() == 's');
    lemma_join_plain(base, ha);
    lemma_join_plain(base, hb);
    let da = instance_dir_of(root, a.bytes@);
    let db = instance_dir_of(root, b.bytes@);
    let m = "minecraft"@;
    lemma_join_plain(da, m);
    lemma_join_plain(db, m);
    if ha != hb {
        assert(da.subrange(base.len() + 1int, base.len() + 37int) =~= ha);
        assert(db.subrange(base.len() + 1int, base.len() + 37int) =~= hb);
        let ga = instance_game_dir_of(root, a.bytes@);
        let gb = instance_game_dir_of(root, b.bytes@);
        assert(ga.subrange(base.len() + 1int, base.len() + 37int) =~= ha);
        assert(gb.subrange(base.len() + 1int, base.len() + 37int) =~= hb);
    } else {
        lemma_hyphenated_injective(a.bytes@, b.bytes@);
        assert(a.bytes == b.bytes);
    }
}

/// If `a/b` equals `c/d` and neither `a` nor `c` contains a `/`, then the
/// parts match.
pub proof fn lemma_split_at_first_slash(a: Seq<char>, b: Seq<char>, c: Seq<char>, d: Seq<char>)
    requires
        a + seq!['/'] + b == c + seq!['/'] + d,
        forall|i: int| 0 <= i < a.len() ==> a[i] != '/',
        forall|i: int| 0 <= i < c.len() ==> c[i] != '/',
    ensures
        a == c,
        b == d,
{
    let x = a + seq!['/'] + b;
    let y = c + seq!['/'] + d;
    if a.len() < c.len() {
        assert(x[a.len() as int] == '/');
        assert(y[a.len() as int] == c[a.len() as int]);
    } else if c.len() < a.len() {
        assert(y[c.len() as int] == '/');
        assert(x[c.len() as int] == a[c.len() as int]);
    } else {
        assert(x.subrange(0, a.len() as int) =~= a);
        assert(y.subrange(0, c.len() as int) =~= c);
        assert(x.subrange(a.len() + 1int, x.len() as int) =~= b);
        assert(y.subrange(c.len() + 1int, y.len() as int) =~= d);
    }
}

/// Cached Fabric profiles are keyed by both the game and the loader
/// version: two requests share a cache file only when both versions are
/// the same once made path-safe.
pub proof fn lemma_fabric_profile_path_keyed_by_both(
    root: Seq<char>,
    g1: Seq<char>,
    l1: Seq<char>,
    g2: Seq<char>,
    l2: Seq<char>,
)
    requires
        fabric_profile_path_of(root, g1, l1) == fabric_profile_path_of(root, g2, l2),
    ensures
        sanitized(g1) == sanitized(g2),
        sanitized(l1) == sanitized(l2),
{
    reveal_strlit("cache");
    reveal_strlit("fabric");
    reveal_strlit(".json");
    let f = path_join(cache_dir_of(root), "fabric"@);
    assert(f.len() > 0 && f.last() == 'c');
    let s1 = sanitized(g1);
    let s2 = sanitized(g2);
    let t1 = sanitized(l1) + ".json"@;
    let t2 = sanitized(l2) + ".json"@;
    assert(t1[0] != '/' && t2[0] != '/') by {
        if sanitized(l1).len() > 0 {
            assert(!is_unsafe_path_char(sanitized(l1)[0]));
        }
        if sanitized(l2).len() > 0 {
            assert(!is_unsafe_path_char(sanitized(l2)[0]));
        }
    }
    assert forall|i: int| 0 <= i < t1.len() implies t1[i] != '/' by {
        if i < sanitized(l1).len() {
            assert(!is_unsafe_path_char(sanitized(l1)[i]));
        }
    }
    assert forall|i: int| 0 <= i < t2.len() implies t2[i] != '/' by {
        if i < sanitized(l2).len() {
            assert(!is_unsafe_path_char(sanitized(l2)[i]));
        }
    }
    assert forall|i: int| 0 <= i < s1.len() implies s1[i] != '/' by {
        assert(!is_unsafe_path_char(s1[i]));
    }
    assert forall|i: int| 0 <= i < s2.len() implies s2[i] != '/' by {
        assert(!is_unsafe_path_char(s2[i]));
    }
    // The part after `<fabric>/`: either `<loader>.json` (empty game
    // segment) or `<game>/<loader>.json`.
    let r1 = if s1.len() == 0 { t1 } else { s1 + seq!['/'] + t1 };
    let r2 = if s2.len() == 0 { t2 } else { s2 + seq!['/'] + t2 };
    if s1.len() == 0 {
        assert(path_join(f, s1) =~= f + seq!['/']);
        assert(fabric_profile_path_of(root, g1, l1) =~= f + seq!['/'] + r1);
    } else {
        assert(s1[0] != '/');
        assert(path_join(f, s1) =~= f + seq!['/'] + s1);
        assert(fabric_profile_path_of(root, g1, l1) =~= f + seq!['/'] + r1);
    }
    if s2.len() == 0 {
        assert(path_join(f, s2) =~= f + seq!['/']);
        assert(fabric_profile_path_of(root, g2, l2) =~= f + seq!['/'] + r2);
    } else {
        assert(s2[0] != '/');
        assert(path_join(f, s2) =~= f + seq!['/'] + s2);
        assert(fabric_profile_path_of(root, g2, l2) =~= f + seq!['/'] + r2);
    }
    let p = f + seq!['/'];
    assert((p + r1).subrange(p.len() as int, (p + r1).len() as int) =~= r1);
    assert((p + r2).subrange(p.len() as int, (p + r2).len() as int) =~= r2);
    assert(r1 == r2);
    if s1.len() == 0 && s2.len() == 0 {
    } else if s1.len() == 0 {
        assert(r2[s2.len() as int] == '/');
        assert(t1[s2.len() as int] != '/');
    } else if s2.len() == 0 {
        assert(r1[s1.len() as int] == '/');
        assert(t2[s1.len() as int] != '/');
    } else {
        lemma_split_at_first_slash(s1, t1, s2, t2);
    }
    assert(t1 == t2);
    assert(sanitized(l1) =~= t1.subrange(0, t1.len() - 5));
    assert(sanitized(l2) =~= t2.subrange(0, t2.len() - 5));
}

} // verus!
