//! The ways an acquisition can fail.

use vstd::prelude::*;
use crate::text::views;

verus! {

/// Why a tool binary could not be acquired.
#[derive(Debug)]
pub enum AcquireError {
    /// The platform has no artifact, such as a 32-bit x86 machine.
    UnsupportedPlatform(String),
    /// The registry could not be reached or answered with a failure.
    RegistryFetchFailure(String),
    /// A registry document was malformed or lacked an expected field.
    MetadataParseFailure(String),
    /// The release has no asset of the expected name.
    AssetNotFoundForPlatform { expected: String, available: Vec<String> },
    /// Downloading or unpacking an archive failed.
    DownloadFailure(String),
    /// Creating, reading or removing a directory failed.
    FilesystemFailure(String),
    /// The unpacked tree holds no binary of the expected name.
    BinaryNotFoundAfterExtraction { name: String, root: String },
    /// No version string of a list could be read.
    VersionParseFailure(String),
}

/// `names` separated by `", "`.
pub open spec fn comma_list(names: Seq<Seq<char>>) -> Seq<char>
    decreases names.len(),
{
    if names.len() == 0 {
        Seq::empty()
    } else if names.len() == 1 {
        names[0]
    } else {
        comma_list(names.drop_last()) + ", "@ + names.last()
    }
}

/// The text that describes an error.
pub open spec fn message_spec(e: AcquireError) -> Seq<char> {
    match e {
        AcquireError::UnsupportedPlatform(m) => m@,
        AcquireError::RegistryFetchFailure(m) => m@,
        AcquireError::MetadataParseFailure(m) => m@,
        AcquireError::AssetNotFoundForPlatform { expected, available } =>
            "No compatible asset found for platform. Looking for: '"@ + expected@
                + "'. Available assets: ["@ + comma_list(views(available@)) + "]"@,
        AcquireError::DownloadFailure(m) => m@,
        AcquireError::FilesystemFailure(m) => m@,
        AcquireError::BinaryNotFoundAfterExtraction { name, root } => "Could not find "@ + name@
            + " binary in extracted content at "@ + root@,
        AcquireError::VersionParseFailure(m) => m@,
    }
}

/// The names separated by `", "`.
pub fn join_names(names: &Vec<String>) -> (r: String)
    ensures
        r@ == comma_list(views(names@)),
{
    let mut r = String::new();
    let mut i: usize = 0;
    while i < names.len()
        invariant
            i <= names@.len(),
            r@ == comma_list(views(names@).take(i as int)),
        decreases names@.len() - i,
    {
        assert(views(names@).take(i + 1).drop_last() =~= views(names@).take(i as int));
        if i > 0 {
            r = r.concat(", ");
        }
        r = r.concat(names[i].as_str());
        i = i + 1;
    }
    assert(views(names@).take(i as int) =~= views(names@));
    r
}

impl AcquireError {
    /// A description of the error for people, naming what was looked for.
    pub fn message(&self) -> (r: String)
        ensures
            r@ == message_spec(*self),
    {
        match self {
            AcquireError::UnsupportedPlatform(m) => m.clone(),
            AcquireError::RegistryFetchFailure(m) => m.clone(),
            AcquireError::MetadataParseFailure(m) => m.clone(),
            AcquireError::AssetNotFoundForPlatform { expected, available } => String::from_str(
                "No compatible asset found for platform. Looking for: '",
            ).concat(expected.as_str()).concat("'. Available assets: [").concat(
                join_names(available).as_str(),
            ).concat("]"),
            AcquireError::DownloadFailure(m) => m.clone(),
            AcquireError::FilesystemFailure(m) => m.clone(),
            AcquireError::BinaryNotFoundAfterExtraction { name, root } => String::from_str(
                "Could not find ",
            ).concat(name.as_str()).concat(" binary in extracted content at ").concat(
                root.as_str(),
            ),
            AcquireError::VersionParseFailure(m) => m.clone(),
        }
    }
}

} // verus!
