//! Fabric Loader support: picking a loader build for a game version, the
//! meta-API addresses, and merging Fabric's loader profile (a delta: main
//! class, extra libraries, extra arguments) on top of the vanilla version
//! it targets.
use vstd::prelude::*;
use vstd::string::StringSliceAdditionalSpecFns;

use crate::libraries::{dedupe_libraries_preferring_last, deduped};
use crate::text::{concat2, hex_upper, push_char};
use crate::version_detail::{ArgumentEntry, Arguments, Library, VersionDetail};

verus! {

/// Base address of Fabric's meta API.
pub const FABRIC_META_BASE: &'static str = "https://meta.fabricmc.net/v2";

/// One Fabric Loader build.
#[derive(Debug, Clone)]
pub struct FabricLoaderVersion {
    pub separator: String,
    pub build: u32,
    pub maven: String,
    pub version: String,
    pub stable: bool,
}

/// The intermediary mappings build a loader build needs.
#[derive(Debug, Clone)]
pub struct FabricIntermediary {
    pub maven: String,
    pub version: String,
    pub stable: bool,
}

/// A loader build known to work with one Minecraft version, with the
/// intermediary mappings it needs.
#[derive(Debug, Clone)]
pub struct FabricLoaderForGame {
    pub loader: FabricLoaderVersion,
    pub intermediary: FabricIntermediary,
}

/// Fabric's loader profile for one game/loader pair: not a self-contained
/// version description but a delta on top of the vanilla one.
#[derive(Debug, Clone)]
pub struct FabricProfile {
    pub id: String,
    pub main_class: String,
    pub arguments: Option<Arguments>,
    pub libraries: Vec<Library>,
}

/// Whether `i` holds the newest stable build: a stable build whose build
/// number no stable build exceeds, and the first position with that
/// number among the stable builds.
pub open spec fn is_newest_stable(c: Seq<FabricLoaderForGame>, i: int) -> bool {
    &&& 0 <= i < c.len()
    &&& c[i].loader.stable
    &&& forall|j: int|
        0 <= j < c.len() && (#[trigger] c[j]).loader.stable ==> c[j].loader.build <= c[i].loader.build
    &&& forall|j: int|
        0 <= j < i && (#[trigger] c[j]).loader.stable ==> c[j].loader.build < c[i].loader.build
}

/// The position to preselect: the newest stable build, else the first
/// entry, else nothing.
pub open spec fn recommended_index(c: Seq<FabricLoaderForGame>) -> Option<int> {
    if exists|i: int| is_newest_stable(c, i) {
        Some(choose|i: int| is_newest_stable(c, i))
    } else if c.len() > 0 {
        Some(0)
    } else {
        None
    }
}

/// At most one position holds the newest stable build.
proof fn lemma_newest_stable_unique(c: Seq<FabricLoaderForGame>, i: int, k: int)
    requires
        is_newest_stable(c, i),
        is_newest_stable(c, k),
    ensures
        i == k,
{
    assert(c[k].loader.build <= c[i].loader.build);
    assert(c[i].loader.build <= c[k].loader.build);
}

/// The loader build to preselect in the UI: the newest build marked
/// `stable` (the one with the largest build number, whatever the order of
/// the list), or, when a game version has no stable build yet, simply the
/// first entry; `None` for an empty list.
pub fn recommended_loader_version(candidates: &[FabricLoaderForGame]) -> (r: Option<
    &FabricLoaderForGame,
>)
    ensures
        match recommended_index(candidates@) {
            Some(i) => r matches Some(x) && *x == candidates@[i],
            None => r is None,
        },
{
    let mut best: Option<usize> = None;
    let mut i: usize = 0;
    while i < candidates.len()
        invariant
            0 <= i <= candidates.len(),
            best is None ==> forall|j: int| 0 <= j < i ==> !(#[trigger] candidates@[j]).loader.stable,
            best matches Some(b) ==> {
                &&& b < i
                &&& candidates@[b as int].loader.stable
                &&& forall|j: int|
                    0 <= j < i && (#[trigger] candidates@[j]).loader.stable ==> candidates@[j].loader.build
                        <= candidates@[b as int].loader.build
                &&& forall|j: int|
                    0 <= j < b && (#[trigger] candidates@[j]).loader.stable ==> candidates@[j].loader.build
                        < candidates@[b as int].loader.build
            },
        decreases candidates.len() - i,
    {
        if candidates[i].loader.stable {
            match best {
                None => {
                    best = Some(i);
                },
                Some(b) => {
                    if candidates[i].loader.build > candidates[b].loader.build {
                        best = Some(i);
                    }
                },
            }
        }
        i = i + 1;
    }
    match best {
        Some(b) => {
            proof {
                assert(is_newest_stable(candidates@, b as int));
                let k = choose|k: int| is_newest_stable(candidates@, k);
                lemma_newest_stable_unique(candidates@, b as int, k);
            }
            Some(&candidates[b])
        },
        None => {
            assert(!exists|k: int| is_newest_stable(candidates@, k)) by {
                if exists|k: int| is_newest_stable(candidates@, k) {
                    let k = choose|k: int| is_newest_stable(candidates@, k);
                    assert(candidates@[k].loader.stable);
                }
            }
            if candidates.len() > 0 {
                Some(&candidates[0])
            } else {
                None
            }
        },
    }
}

/// `base` followed by `extra`.
pub fn concat<T>(base: Vec<T>, extra: Vec<T>) -> (r: Vec<T>)
    ensures
        r@ == base@ + extra@,
{
    let mut base = base;
    let mut extra = extra;
    base.append(&mut extra);
    base
}

/// The game arguments of an optional argument block (none when absent).
pub open spec fn game_args_of(a: Option<Arguments>) -> Seq<ArgumentEntry> {
    match a {
        Some(x) => x.game@,
        None => seq![],
    }
}

/// The JVM arguments of an optional argument block (none when absent).
pub open spec fn jvm_args_of(a: Option<Arguments>) -> Seq<ArgumentEntry> {
    match a {
        Some(x) => x.jvm@,
        None => seq![],
    }
}

/// Merges a Fabric profile on top of the vanilla version it targets.
/// Vanilla supplies everything the profile does not redefine (client jar,
/// asset index, Java requirement, logging, legacy arguments); the profile
/// supplies the id and main class; libraries are vanilla's followed by the
/// profile's, de-duplicated with the later (Fabric) entry winning; argument
/// lists are vanilla's followed by the profile's.
pub fn merge_profile_onto_vanilla(vanilla: VersionDetail, profile: FabricProfile) -> (r:
    VersionDetail)
    ensures
        r.id == profile.id,
        r.main_class == profile.main_class,
        r.version_type == vanilla.version_type,
        r.asset_index == vanilla.asset_index,
        r.assets == vanilla.assets,
        r.downloads == vanilla.downloads,
        r.java_version == vanilla.java_version,
        r.legacy_minecraft_arguments == vanilla.legacy_minecraft_arguments,
        r.logging == vanilla.logging,
        r.libraries@ == deduped(vanilla.libraries@ + profile.libraries@),
        (r.arguments is Some) == (vanilla.arguments is Some || profile.arguments is Some),
        r.arguments is Some ==> r.arguments->0.game@ == game_args_of(vanilla.arguments)
            + game_args_of(profile.arguments),
        r.arguments is Some ==> r.arguments->0.jvm@ == jvm_args_of(vanilla.arguments)
            + jvm_args_of(profile.arguments),
{
    let VersionDetail {
        id: _,
        version_type,
        main_class: _,
        asset_index,
        assets,
        downloads,
        libraries: vanilla_libraries,
        java_version,
        arguments: vanilla_arguments,
        legacy_minecraft_arguments,
        logging,
    } = vanilla;
    let FabricProfile {
        id,
        main_class,
        arguments: profile_arguments,
        libraries: profile_libraries,
    } = profile;
    let libraries = dedupe_libraries_preferring_last(
        concat(vanilla_libraries, profile_libraries),
    );
    let arguments = match (vanilla_arguments, profile_arguments) {
        (Some(base), Some(extra)) => Some(
            Arguments { game: concat(base.game, extra.game), jvm: concat(base.jvm, extra.jvm) },
        ),
        (Some(base), None) => {
            assert(base.game@ + Seq::<ArgumentEntry>::empty() =~= base.game@);
            assert(base.jvm@ + Seq::<ArgumentEntry>::empty() =~= base.jvm@);
            Some(base)
        },
        (None, Some(extra)) => {
            assert(Seq::<ArgumentEntry>::empty() + extra.game@ =~= extra.game@);
            assert(Seq::<ArgumentEntry>::empty() + extra.jvm@ =~= extra.jvm@);
            Some(extra)
        },
        (None, None) => None,
    };
    VersionDetail {
        id,
        version_type,
        main_class,
        asset_index,
        assets,
        downloads,
        libraries,
        java_version,
        arguments,
        legacy_minecraft_arguments,
        logging,
    }
}

/// Whether `r` is `profile` merged onto `vanilla` (see
/// [`merge_profile_onto_vanilla`]).
pub open spec fn is_fabric_merge(r: VersionDetail, vanilla: VersionDetail, profile: FabricProfile) -> bool {
    &&& r.id == profile.id
    &&& r.main_class == profile.main_class
    &&& r.version_type == vanilla.version_type
    &&& r.asset_index == vanilla.asset_index
    &&& r.assets == vanilla.assets
    &&& r.downloads == vanilla.downloads
    &&& r.java_version == vanilla.java_version
    &&& r.legacy_minecraft_arguments == vanilla.legacy_minecraft_arguments
    &&& r.logging == vanilla.logging
    &&& r.libraries@ == deduped(vanilla.libraries@ + profile.libraries@)
    &&& (r.arguments is Some) == (vanilla.arguments is Some || profile.arguments is Some)
    &&& r.arguments is Some ==> r.arguments->0.game@ == game_args_of(vanilla.arguments)
        + game_args_of(profile.arguments)
    &&& r.arguments is Some ==> r.arguments->0.jvm@ == jvm_args_of(vanilla.arguments)
        + jvm_args_of(profile.arguments)
}

/// The version a launch runs, and the id its client jar is cached under.
#[derive(Debug, Clone)]
pub struct LaunchVersion {
    pub version: VersionDetail,
    pub jar_cache_id: String,
}

/// The version to launch: vanilla as it is, or with the Fabric profile
/// merged on top. The client jar is cached under the vanilla id whatever
/// the loader: the jar is unmodified vanilla bytes, so every instance on
/// that Minecraft version, vanilla or Fabric at any loader version, shares
/// one copy.
pub fn launch_version(vanilla: VersionDetail, profile: Option<FabricProfile>) -> (r: LaunchVersion)
    ensures
        r.jar_cache_id@ == vanilla.id@,
        profile is None ==> r.version == vanilla,
        profile matches Some(p) ==> is_fabric_merge(r.version, vanilla, p),
{
    let jar_cache_id = vanilla.id.clone();
    match profile {
        None => LaunchVersion { version: vanilla, jar_cache_id },
        Some(p) => LaunchVersion { version: merge_profile_onto_vanilla(vanilla, p), jar_cache_id },
    }
}

// ─── Percent-encoding ────────────────────────────────────────────────────────

/// Bytes left as they are in a URL path segment (RFC 3986 "unreserved").
pub open spec fn is_unreserved(b: u8) -> bool {
    (0x41 <= b <= 0x5a) || (0x61 <= b <= 0x7a) || (0x30 <= b <= 0x39) || b == 0x2d || b == 0x5f
        || b == 0x2e || b == 0x7e
}

/// What one byte becomes: itself when unreserved, else `%HH` in upper-case
/// hex.
pub open spec fn encoded_byte(b: u8) -> Seq<char> {
    if is_unreserved(b) {
        seq![b as char]
    } else {
        seq!['%', hex_upper((b / 16) as int), hex_upper((b % 16) as int)]
    }
}

/// The percent-encoding of a byte string.
pub open spec fn percent_encoded(bytes: Seq<u8>) -> Seq<char>
    decreases bytes.len(),
{
    if bytes.len() == 0 {
        seq![]
    } else {
        encoded_byte(bytes[0]) + percent_encoded(bytes.drop_first())
    }
}

/// The value of an upper-case hex digit.
pub open spec fn hex_value(c: char) -> int {
    if '0' <= c <= '9' {
        c as int - '0' as int
    } else {
        c as int - 'A' as int + 10
    }
}

/// Reading a percent-encoded segment back into bytes.
pub open spec fn percent_decoded(s: Seq<char>) -> Seq<u8>
    decreases s.len(),
{
    if s.len() == 0 {
        seq![]
    } else if s[0] == '%' && s.len() >= 3 {
        seq![(hex_value(s[1]) * 16 + hex_value(s[2])) as u8] + percent_decoded(s.skip(3))
    } else {
        seq![s[0] as u8] + percent_decoded(s.drop_first())
    }
}

/// Encoding one more byte appends its encoding.
proof fn lemma_percent_encoded_push(bytes: Seq<u8>, b: u8)
    ensures
        percent_encoded(bytes.push(b)) == percent_encoded(bytes) + encoded_byte(b),
    decreases bytes.len(),
{
    if bytes.len() == 0 {
        let one = bytes.push(b);
        assert(one.drop_first().len() == 0);
        assert(percent_encoded(one.drop_first()) == Seq::<char>::empty());
        assert(one[0] == b);
        assert(percent_encoded(one) =~= percent_encoded(bytes) + encoded_byte(b));
    } else {
        assert(bytes.push(b).drop_first() =~= bytes.drop_first().push(b));
        lemma_percent_encoded_push(bytes.drop_first(), b);
        assert(percent_encoded(bytes.push(b)) =~= encoded_byte(bytes[0]) + (percent_encoded(
            bytes.drop_first(),
        ) + encoded_byte(b)));
    }
}

/// Decoding after encoding gives the bytes back: the encoding loses
/// nothing, so distinct segments never share a URL.
pub proof fn lemma_percent_encoding_lossless(bytes: Seq<u8>)
    ensures
        percent_decoded(percent_encoded(bytes)) == bytes,
    decreases bytes.len(),
{
    if bytes.len() > 0 {
        let b = bytes[0];
        let rest = percent_encoded(bytes.drop_first());
        let s = percent_encoded(bytes);
        lemma_percent_encoding_lossless(bytes.drop_first());
        assert(s == encoded_byte(b) + rest);
        if is_unreserved(b) {
            assert(s.drop_first() =~= rest);
            assert((b as char) as int == b as int);
            assert(percent_decoded(s) =~= seq![b] + bytes.drop_first());
        } else {
            assert(s.skip(3) =~= rest);
            let hi = (b / 16) as int;
            let lo = (b % 16) as int;
            assert(hex_value(hex_upper(hi)) == hi);
            assert(hex_value(hex_upper(lo)) == lo);
            assert(hi * 16 + lo == b);
            assert(percent_decoded(s) =~= seq![b] + bytes.drop_first());
        }
        assert(bytes =~= seq![b] + bytes.drop_first());
    }
}

/// Every character of an encoded segment is URL-safe: unreserved, `%`, or
/// an upper-case hex digit; an all-unreserved segment is left unchanged.
pub proof fn lemma_percent_encoding_shape(bytes: Seq<u8>)
    ensures
        forall|i: int|
            0 <= i < percent_encoded(bytes).len() ==> is_unreserved(
                #[trigger] percent_encoded(bytes)[i] as u8,
            ) || percent_encoded(bytes)[i] == '%',
        (forall|i: int| 0 <= i < bytes.len() ==> is_unreserved(#[trigger] bytes[i])) ==> percent_encoded(
            bytes,
        ) == bytes.map_values(|b: u8| b as char),
    decreases bytes.len(),
{
    if bytes.len() > 0 {
        let b = bytes[0];
        let rest = bytes.drop_first();
        lemma_percent_encoding_shape(rest);
        let s = percent_encoded(bytes);
        let e = encoded_byte(b);
        assert(s == e + percent_encoded(rest));
        assert forall|i: int| 0 <= i < s.len() implies is_unreserved(#[trigger] s[i] as u8) || s[i]
            == '%' by {
            if i < e.len() {
                if !is_unreserved(b) && i > 0 {
                    let d = if i == 1 {
                        (b / 16) as int
                    } else {
                        (b % 16) as int
                    };
                    assert(s[i] == hex_upper(d));
                }
            } else {
                assert(s[i] == percent_encoded(rest)[i - e.len()]);
            }
        }
        if forall|i: int| 0 <= i < bytes.len() ==> is_unreserved(#[trigger] bytes[i]) {
            assert forall|i: int| 0 <= i < rest.len() implies is_unreserved(#[trigger] rest[i]) by {
                assert(rest[i] == bytes[i + 1]);
            }
            assert(is_unreserved(bytes[0]));
            assert(s =~= bytes.map_values(|b: u8| b as char));
        }
    }
}

/// Whether a byte is left as it is.
fn unreserved(b: u8) -> (r: bool)
    ensures
        r == is_unreserved(b),
{
    (0x41 <= b && b <= 0x5a) || (0x61 <= b && b <= 0x7a) || (0x30 <= b && b <= 0x39) || b == 0x2d
        || b == 0x5f || b == 0x2e || b == 0x7e
}

/// Percent-encodes one URL path segment for Fabric's API: unreserved bytes
/// stay, every other byte of the UTF-8 encoding becomes `%HH`. Most
/// version strings need nothing, but real game versions such as
/// `1.14 Pre-Release 5` contain spaces.
pub fn percent_encode_segment(segment: &str) -> (r: String)
    ensures
        r@ == percent_encoded(segment.spec_bytes()),
{
    let bytes = segment.as_bytes();
    let mut out = String::new();
    let mut i: usize = 0;
    proof {
        assert(bytes@.take(0) =~= Seq::<u8>::empty());
    }
    while i < bytes.len()
        invariant
            0 <= i <= bytes.len(),
            out@ == percent_encoded(bytes@.take(i as int)),
        decreases bytes.len() - i,
    {
        let b = bytes[i];
        let ghost before = out@;
        if unreserved(b) {
            push_char(&mut out, b as char);
        } else {
            push_char(&mut out, '%');
            push_char(&mut out, crate::text::hex_digit_upper(b / 16));
            push_char(&mut out, crate::text::hex_digit_upper(b % 16));
        }
        proof {
            assert(out@ =~= before + encoded_byte(b));
            assert(bytes@.take(i + 1) =~= bytes@.take(i as int).push(b));
            lemma_percent_encoded_push(bytes@.take(i as int), b);
        }
        i = i + 1;
    }
    proof {
        assert(bytes@.take(bytes.len() as int) =~= bytes@);
    }
    out
}

/// `<meta>/versions/loader/<game>`: the loader builds compatible with a
/// game version.
pub fn loader_versions_url(game_version: &str) -> (r: String)
    ensures
        r@ == FABRIC_META_BASE@ + "/versions/loader/"@ + percent_encoded(game_version.spec_bytes()),
{
    let mut url = concat2(FABRIC_META_BASE, "/versions/loader/");
    let g = percent_encode_segment(game_version);
    url.append(g.as_str());
    url
}

/// `<meta>/versions/loader/<game>/<loader>/profile/json`: the loader
/// profile of one game/loader pair.
pub fn fabric_profile_url(game_version: &str, loader_version: &str) -> (r: String)
    ensures
        r@ == FABRIC_META_BASE@ + "/versions/loader/"@ + percent_encoded(game_version.spec_bytes())
            + "/"@ + percent_encoded(loader_version.spec_bytes()) + "/profile/json"@,
{
    let mut url = loader_versions_url(game_version);
    url.append("/");
    let l = percent_encode_segment(loader_version);
    url.append(l.as_str());
    url.append("/profile/json");
    url
}

} // verus!
