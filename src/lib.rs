//! Acquisition, versioning and caching of the tool binaries used by the C# support:
//! the native debugger from a release registry and the language server from a
//! package feed.

pub mod binary_manager;
pub mod error;
mod json;
pub mod locate;
pub mod nuget;
pub mod payload;
pub mod platform;
pub mod roslyn;
pub mod simple_temp_dir;
pub mod text;
pub mod version;
