//! Mojang's version manifest: the list of every published version.
use vstd::prelude::*;

use crate::text::str_eq;

verus! {

/// Where Mojang publishes the version manifest (v2).
pub const VERSION_MANIFEST_URL: &'static str = "https://piston-meta.mojang.com/mc/game/version_manifest_v2.json";

/// The full list of published versions.
#[derive(Debug, Clone)]
pub struct VersionManifest {
    pub latest: LatestVersions,
    pub versions: Vec<VersionSummary>,
}

/// The newest release and snapshot ids.
#[derive(Debug, Clone)]
pub struct LatestVersions {
    pub release: String,
    pub snapshot: String,
}

/// One published version and where its `<version>.json` lives.
#[derive(Debug, Clone)]
pub struct VersionSummary {
    pub id: String,
    pub version_type: VersionType,
    pub url: String,
    pub release_time: String,
}

/// The kind of a published version.
#[derive(Debug, Clone, Copy, PartialEq, Eq, Structural)]
pub enum VersionType {
    Release,
    Snapshot,
    OldBeta,
    OldAlpha,
}

/// The position of the first version with id `id`.
pub open spec fn first_with_id(versions: Seq<VersionSummary>, id: Seq<char>) -> Option<int>
    decreases versions.len(),
{
    if versions.len() == 0 {
        None
    } else if versions[0].id@ == id {
        Some(0)
    } else {
        match first_with_id(versions.drop_first(), id) {
            Some(i) => Some(i + 1),
            None => None,
        }
    }
}

/// `first_with_id` finds the first position with the id.
pub proof fn lemma_first_with_id(versions: Seq<VersionSummary>, id: Seq<char>)
    ensures
        match first_with_id(versions, id) {
            Some(i) => 0 <= i < versions.len() && versions[i].id@ == id && forall|j: int|
                0 <= j < i ==> (#[trigger] versions[j]).id@ != id,
            None => forall|j: int| 0 <= j < versions.len() ==> (#[trigger] versions[j]).id@ != id,
        },
    decreases versions.len(),
{
    if versions.len() > 0 && versions[0].id@ != id {
        lemma_first_with_id(versions.drop_first(), id);
        assert forall|j: int| 1 <= j < versions.len() implies versions[j] == versions.drop_first()[j
            - 1] by {}
    }
}

impl VersionManifest {
    /// The first listed version with id `version_id`, if any.
    pub fn find(&self, version_id: &str) -> (r: Option<&VersionSummary>)
        ensures
            match first_with_id(self.versions@, version_id@) {
                Some(i) => r matches Some(v) && *v == self.versions@[i],
                None => r is None,
            },
    {
        let mut i: usize = 0;
        assert(self.versions@.skip(0) =~= self.versions@);
        while i < self.versions.len()
            invariant
                0 <= i <= self.versions.len(),
                first_with_id(self.versions@, version_id@) == match first_with_id(
                    self.versions@.skip(i as int),
                    version_id@,
                ) {
                    Some(k) => Some(k + i),
                    None => None,
                },
            decreases self.versions.len() - i,
        {
            assert(self.versions@.skip(i as int).drop_first() =~= self.versions@.skip(i + 1));
            if str_eq(self.versions[i].id.as_str(), version_id) {
                return Some(&self.versions[i]);
            }
            i = i + 1;
        }
        None
    }
}

} // verus!
