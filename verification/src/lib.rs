//! Launcher core: the data model and the decision logic of a Minecraft
//! launcher — version and library resolution, platform rules, argument
//! templating, on-disk layout, download planning — each stated and proved
//! against its contract.
pub mod text;
pub mod ext;
pub mod ids;
pub mod os_match;
pub mod version_detail;
pub mod paths;
pub mod downloads;
pub mod error;
pub mod libraries;
pub mod manifest;
pub mod assets;
pub mod fabric;
pub mod java;
pub mod launch;
pub mod database;
pub mod commands;
