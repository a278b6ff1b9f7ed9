//! The failures the launcher's own logic can report.
use vstd::prelude::*;

use crate::text::{concat2, concat3, owned};

verus! {

/// A failure decided by the launcher's logic itself (network, JSON and
/// filesystem failures are reported by the I/O layer around it).
#[derive(Debug, Clone, PartialEq, Eq)]
pub enum MinecraftError {
    /// The version id is not in the version manifest.
    VersionNotFound(String),
    /// No Java runtime could be found or installed for this component.
    NoJavaAvailable { component: String },
    /// The version has no client download.
    MissingClientDownload(String),
    /// A library name is not a Maven coordinate `group:artifact:version`.
    MalformedLibraryName(String),
    /// A natives archive could not be extracted.
    NativeExtraction(String),
    /// A Fabric instance without a loader version.
    MissingLoaderVersion,
    /// A classpath entry that cannot be written in a path list.
    InvalidClasspathEntry(String),
}

/// The message shown for a failure.
pub open spec fn minecraft_error_message(e: MinecraftError) -> Seq<char> {
    match e {
        MinecraftError::VersionNotFound(v) => "version '"@ + v@
            + "' was not found in the version manifest"@,
        MinecraftError::NoJavaAvailable { component } =>
            "no Java runtime is available for this instance (system Java not found and no managed runtime for component '"@
            + component@ + "')"@,
        MinecraftError::MissingClientDownload(v) => "this version's manifest has no '"@ + v@
            + "' downloads.client entry — it may be a server-only or unsupported version"@,
        MinecraftError::MalformedLibraryName(n) => "malformed library name '"@ + n@ + "'"@,
        MinecraftError::NativeExtraction(m) => "failed to extract native library archive: "@ + m@,
        MinecraftError::MissingLoaderVersion =>
            "this instance uses the Fabric loader but no loader version was specified"@,
        MinecraftError::InvalidClasspathEntry(e) => "classpath entry '"@ + e@
            + "' cannot be joined into a path list"@,
    }
}

impl MinecraftError {
    /// The message shown for this failure.
    pub fn message(&self) -> (r: String)
        ensures
            r@ == minecraft_error_message(*self),
    {
        match self {
            MinecraftError::VersionNotFound(v) => concat3(
                "version '",
                v.as_str(),
                "' was not found in the version manifest",
            ),
            MinecraftError::NoJavaAvailable { component } => concat3(
                "no Java runtime is available for this instance (system Java not found and no managed runtime for component '",
                component.as_str(),
                "')",
            ),
            MinecraftError::MissingClientDownload(v) => concat3(
                "this version's manifest has no '",
                v.as_str(),
                "' downloads.client entry — it may be a server-only or unsupported version",
            ),
            MinecraftError::MalformedLibraryName(n) => concat3(
                "malformed library name '",
                n.as_str(),
                "'",
            ),
            MinecraftError::NativeExtraction(m) => concat2(
                "failed to extract native library archive: ",
                m.as_str(),
            ),
            MinecraftError::MissingLoaderVersion => owned(
                "this instance uses the Fabric loader but no loader version was specified",
            ),
            MinecraftError::InvalidClasspathEntry(e) => concat3(
                "classpath entry '",
                e.as_str(),
                "' cannot be joined into a path list",
            ),
        }
    }
}

} // verus!
