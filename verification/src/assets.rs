//! Asset indexes: the sounds, textures and language files a version needs,
//! stored content-addressed by SHA-1 under `assets/objects/<hh>/<hash>`.
use vstd::prelude::*;

use crate::downloads::{DownloadTask, TaskView, task_views};
use crate::paths::{join_path, path_join};
use crate::text::{chars_of, concat2, push_char, str_eq, string_of_range};

verus! {

/// Where Mojang serves asset objects.
pub const RESOURCES_BASE_URL: &'static str = "https://resources.download.minecraft.net";

/// An asset index: every logical asset name with its object.
#[derive(Debug, Clone)]
pub struct AssetIndex {
    pub objects: Vec<NamedAsset>,
}

/// One logical asset name and the object holding its bytes.
#[derive(Debug, Clone)]
pub struct NamedAsset {
    pub name: String,
    pub object: AssetObject,
}

/// An asset object: its SHA-1 (which is also its storage key) and size.
#[derive(Debug, Clone)]
pub struct AssetObject {
    pub hash: String,
    pub size: u64,
}

/// Bytes taken by `c` in UTF-8.
pub open spec fn utf8_width(c: char) -> int {
    let u = c as u32;
    if u < 0x80 {
        1
    } else if u < 0x800 {
        2
    } else if u < 0x10000 {
        3
    } else {
        4
    }
}

/// How many characters make up the first two bytes of `hash` (all of it
/// when shorter), or `None` when byte 2 falls inside a character — the
/// hashes on which cutting the two-byte prefix is impossible.
pub open spec fn prefix_len(hash: Seq<char>) -> Option<int> {
    if hash.len() == 0 {
        Some(0)
    } else if utf8_width(hash[0]) == 1 {
        if hash.len() == 1 {
            Some(1)
        } else if utf8_width(hash[1]) == 1 {
            Some(2)
        } else {
            None
        }
    } else if utf8_width(hash[0]) == 2 {
        Some(1)
    } else {
        None
    }
}

/// The storage prefix of a hash: its first two bytes (the first two hex
/// digits for a real hash).
pub open spec fn hash_prefix(hash: Seq<char>) -> Seq<char> {
    hash.take(prefix_len(hash)->0)
}

/// `<assets>/objects/<hh>/<hash>`.
pub open spec fn object_path_of(assets_dir: Seq<char>, hash: Seq<char>) -> Seq<char> {
    path_join(path_join(path_join(assets_dir, "objects"@), hash_prefix(hash)), hash)
}

/// The download of one asset object.
pub open spec fn asset_task(a: NamedAsset, assets_dir: Seq<char>) -> TaskView {
    let h = a.object.hash@;
    TaskView {
        url: RESOURCES_BASE_URL@ + seq!['/'] + hash_prefix(h) + seq!['/'] + h,
        destination: object_path_of(assets_dir, h),
        sha1: Some(h),
        expected_size: Some(a.object.size),
        label: "asset: "@ + a.name@,
    }
}

/// Whether some object of `objs` has hash `h`.
pub open spec fn has_hash(objs: Seq<NamedAsset>, h: Seq<char>) -> bool {
    exists|j: int| 0 <= j < objs.len() && (#[trigger] objs[j]).object.hash@ == h
}

/// One download per distinct hash, for the first object carrying it, in
/// index order.
pub open spec fn asset_tasks(objs: Seq<NamedAsset>, assets_dir: Seq<char>) -> Seq<TaskView>
    decreases objs.len(),
{
    if objs.len() == 0 {
        seq![]
    } else {
        let prev = asset_tasks(objs.drop_last(), assets_dir);
        if has_hash(objs.drop_last(), objs.last().object.hash@) {
            prev
        } else {
            prev.push(asset_task(objs.last(), assets_dir))
        }
    }
}

/// Whether every hash of `objs` can be cut at its two-byte prefix.
pub open spec fn prefixes_cut(objs: Seq<NamedAsset>) -> bool {
    forall|i: int| 0 <= i < objs.len() ==> (prefix_len((#[trigger] objs[i]).object.hash@) is Some)
}

/// Whether a character is one byte in UTF-8.
fn one_byte(c: char) -> (r: bool)
    ensures
        r == (utf8_width(c) == 1),
{
    (c as u32) < 0x80
}

/// The two-byte storage prefix of a hash.
pub fn prefix_of(hash: &str) -> (r: String)
    requires
        prefix_len(hash@) is Some,
    ensures
        r@ == hash_prefix(hash@),
{
    let c = chars_of(hash);
    let n: usize = if c.len() == 0 {
        0
    } else if one_byte(c[0]) {
        if c.len() == 1 {
            1
        } else {
            2
        }
    } else {
        1
    };
    assert(c@.subrange(0, n as int) =~= hash@.take(n as int));
    string_of_range(&c, 0, n)
}

/// `<assets>/objects/<hh>/<hash>`: where an object is stored.
pub fn object_path(assets_dir: &str, object: &AssetObject) -> (r: String)
    requires
        prefix_len(object.hash@) is Some,
    ensures
        r@ == object_path_of(assets_dir@, object.hash@),
{
    let prefix = prefix_of(object.hash.as_str());
    let objects = join_path(assets_dir, "objects");
    let dir = join_path(objects.as_str(), prefix.as_str());
    join_path(dir.as_str(), object.hash.as_str())
}

/// The download of one asset object.
fn build_asset_task(a: &NamedAsset, assets_dir: &str) -> (t: DownloadTask)
    requires
        prefix_len(a.object.hash@) is Some,
    ensures
        t@ == asset_task(*a, assets_dir@),
{
    let prefix = prefix_of(a.object.hash.as_str());
    let destination = object_path(assets_dir, &a.object);
    let mut url = concat2(RESOURCES_BASE_URL, "/");
    url.append(prefix.as_str());
    push_char(&mut url, '/');
    url.append(a.object.hash.as_str());
    let label = concat2("asset: ", a.name.as_str());
    proof {
        reveal_strlit("/");
    }
    assert(url@ =~= RESOURCES_BASE_URL@ + seq!['/'] + hash_prefix(a.object.hash@) + seq!['/']
        + a.object.hash@);
    DownloadTask::new(url.as_str(), destination.as_str(), label.as_str()).with_sha1(
        a.object.hash.as_str(),
    ).with_size(a.object.size)
}

/// Builds one download per asset object, de-duplicated by hash (many asset
/// names share identical bytes), stored content-addressed under
/// `assets_dir/objects/<hh>/<hash>` — shared by every instance.
pub fn build_asset_download_tasks(asset_index: &AssetIndex, assets_dir: &str) -> (r: Vec<
    DownloadTask,
>)
    requires
        prefixes_cut(asset_index.objects@),
    ensures
        task_views(r@) == asset_tasks(asset_index.objects@, assets_dir@),
{
    let objs = &asset_index.objects;
    let mut tasks: Vec<DownloadTask> = Vec::new();
    let mut i: usize = 0;
    assert(objs@.take(0) =~= Seq::<NamedAsset>::empty());
    while i < objs.len()
        invariant
            0 <= i <= objs.len(),
            prefixes_cut(objs@),
            task_views(tasks@) == asset_tasks(objs@.take(i as int), assets_dir@),
        decreases objs.len() - i,
    {
        let mut seen = false;
        let mut j: usize = 0;
        while j < i
            invariant
                0 <= j <= i < objs.len(),
                seen == exists|k: int|
                    0 <= k < j && objs@[k].object.hash@ == objs@[i as int].object.hash@,
            decreases i - j,
        {
            if str_eq(objs[j].object.hash.as_str(), objs[i].object.hash.as_str()) {
                seen = true;
            }
            j = j + 1;
        }
        let ghost pre = objs@.take(i as int);
        let ghost cur = objs@.take(i + 1);
        assert(cur.drop_last() =~= pre);
        assert(cur.last() == objs@[i as int]);
        assert(seen == has_hash(pre, objs@[i as int].object.hash@)) by {
            if seen {
                let k = choose|k: int|
                    0 <= k < i && objs@[k].object.hash@ == objs@[i as int].object.hash@;
                assert(pre[k] == objs@[k]);
            }
            if has_hash(pre, objs@[i as int].object.hash@) {
                let k = choose|k: int|
                    0 <= k < pre.len() && (#[trigger] pre[k]).object.hash@
                        == objs@[i as int].object.hash@;
                assert(pre[k] == objs@[k]);
            }
        }
        if !seen {
            let t = build_asset_task(&objs[i], assets_dir);
            let ghost before = tasks@;
            tasks.push(t);
            assert(task_views(tasks@) =~= task_views(before).push(t@));
        }
        i = i + 1;
    }
    assert(objs@.take(objs.len() as int) =~= objs@);
    tasks
}

/// Every task of `asset_tasks` downloads the hash of some object.
proof fn lemma_asset_tasks_sound(objs: Seq<NamedAsset>, assets_dir: Seq<char>)
    ensures
        forall|q: int|
            0 <= q < asset_tasks(objs, assets_dir).len() ==> exists|i: int|
                0 <= i < objs.len() && (#[trigger] asset_tasks(objs, assets_dir)[q]).sha1 == Some(
                    (#[trigger] objs[i]).object.hash@,
                ),
    decreases objs.len(),
{
    if objs.len() > 0 {
        let p = objs.drop_last();
        lemma_asset_tasks_sound(p, assets_dir);
        let prev = asset_tasks(p, assets_dir);
        let cur = asset_tasks(objs, assets_dir);
        assert forall|q: int| 0 <= q < cur.len() implies exists|i: int|
            0 <= i < objs.len() && (#[trigger] cur[q]).sha1 == Some(
                (#[trigger] objs[i]).object.hash@,
            ) by {
            if q < prev.len() {
                assert(cur[q] == prev[q]);
                let i = choose|i: int|
                    0 <= i < p.len() && (#[trigger] prev[q]).sha1 == Some(
                        (#[trigger] p[i]).object.hash@,
                    );
                assert(p[i] == objs[i]);
            } else {
                assert(cur[q].sha1 == Some(objs[objs.len() - 1].object.hash@));
            }
        }
    }
}

/// Every object's hash is downloaded by some task of `asset_tasks`.
proof fn lemma_asset_tasks_complete(objs: Seq<NamedAsset>, assets_dir: Seq<char>)
    ensures
        forall|i: int|
            0 <= i < objs.len() ==> exists|q: int|
                0 <= q < asset_tasks(objs, assets_dir).len() && (#[trigger] asset_tasks(
                    objs,
                    assets_dir,
                )[q]).sha1 == Some((#[trigger] objs[i]).object.hash@),
    decreases objs.len(),
{
    if objs.len() > 0 {
        let p = objs.drop_last();
        lemma_asset_tasks_complete(p, assets_dir);
        let prev = asset_tasks(p, assets_dir);
        let cur = asset_tasks(objs, assets_dir);
        let h = objs.last().object.hash@;
        assert forall|i: int| 0 <= i < objs.len() implies exists|q: int|
            0 <= q < cur.len() && (#[trigger] cur[q]).sha1 == Some(
                (#[trigger] objs[i]).object.hash@,
            ) by {
            if i < p.len() {
                assert(p[i] == objs[i]);
                let q = choose|q: int|
                    0 <= q < prev.len() && (#[trigger] prev[q]).sha1 == Some(
                        (#[trigger] p[i]).object.hash@,
                    );
                assert(cur[q] == prev[q]);
            } else if has_hash(p, h) {
                let j = choose|j: int| 0 <= j < p.len() && (#[trigger] p[j]).object.hash@ == h;
                let q = choose|q: int|
                    0 <= q < prev.len() && (#[trigger] prev[q]).sha1 == Some(
                        (#[trigger] p[j]).object.hash@,
                    );
                assert(cur[q] == prev[q]);
            } else {
                assert(cur[prev.len() as int].sha1 == Some(h));
            }
        }
    }
}

/// No two tasks of `asset_tasks` download the same hash.
proof fn lemma_asset_tasks_unique(objs: Seq<NamedAsset>, assets_dir: Seq<char>)
    ensures
        forall|a: int, b: int|
            0 <= a < b < asset_tasks(objs, assets_dir).len() ==> (#[trigger] asset_tasks(
                objs,
                assets_dir,
            )[a]).sha1 != (#[trigger] asset_tasks(objs, assets_dir)[b]).sha1,
    decreases objs.len(),
{
    if objs.len() > 0 {
        let p = objs.drop_last();
        lemma_asset_tasks_unique(p, assets_dir);
        lemma_asset_tasks_sound(p, assets_dir);
        let prev = asset_tasks(p, assets_dir);
        let cur = asset_tasks(objs, assets_dir);
        let h = objs.last().object.hash@;
        if !has_hash(p, h) {
            assert forall|a: int, b: int| 0 <= a < b < cur.len() implies (#[trigger] cur[a]).sha1
                != (#[trigger] cur[b]).sha1 by {
                assert(cur[a] == prev[a]);
                if b < prev.len() {
                    assert(cur[b] == prev[b]);
                } else {
                    let i = choose|i: int|
                        0 <= i < p.len() && (#[trigger] prev[a]).sha1 == Some(
                            (#[trigger] p[i]).object.hash@,
                        );
                    if p[i].object.hash@ == h {
                        assert(has_hash(p, h));
                    }
                }
            }
        }
    }
}

/// The tasks built carry pairwise distinct hashes, every object's hash has a
/// task, and every task downloads some object's hash: identical bytes are
/// downloaded once, and nothing is missed or invented.
pub proof fn lemma_asset_tasks_unique_and_complete(objs: Seq<NamedAsset>, assets_dir: Seq<char>)
    ensures
        forall|a: int, b: int|
            0 <= a < b < asset_tasks(objs, assets_dir).len() ==> (#[trigger] asset_tasks(
                objs,
                assets_dir,
            )[a]).sha1 != (#[trigger] asset_tasks(objs, assets_dir)[b]).sha1,
        forall|i: int|
            0 <= i < objs.len() ==> exists|q: int|
                0 <= q < asset_tasks(objs, assets_dir).len() && (#[trigger] asset_tasks(
                    objs,
                    assets_dir,
                )[q]).sha1 == Some((#[trigger] objs[i]).object.hash@),
        forall|q: int|
            0 <= q < asset_tasks(objs, assets_dir).len() ==> exists|i: int|
                0 <= i < objs.len() && (#[trigger] asset_tasks(objs, assets_dir)[q]).sha1 == Some(
                    (#[trigger] objs[i]).object.hash@,
                ),
{
    lemma_asset_tasks_unique(objs, assets_dir);
    lemma_asset_tasks_complete(objs, assets_dir);
    lemma_asset_tasks_sound(objs, assets_dir);
}

/// Versions before 1.7 (asset index `"legacy"` or `"pre-1.6"`) also need
/// assets laid out by logical name under `assets/virtual/<id>/`.
pub fn needs_legacy_layout(asset_index_id: &str) -> (r: bool)
    ensures
        r == (asset_index_id@ == "legacy"@ || asset_index_id@ == "pre-1.6"@),
{
    str_eq(asset_index_id, "legacy") || str_eq(asset_index_id, "pre-1.6")
}

} // verus!
