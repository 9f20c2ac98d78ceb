//! The errors that a run can end with or pass over.

use vstd::prelude::*;
use vstd::std_specs::convert::FromSpecImpl;
use crate::text::followed_by;

verus! {

/// What went wrong.
#[derive(Debug, PartialEq, Eq)]
pub enum ColekError {
    /// No volume to scan was found.
    NoGenericDrive,
    /// A failure described by a message.
    Message(String),
    /// A failure described by a fixed message.
    StaticErr(&'static str),
    /// A file could not be opened, read, written, copied, removed or
    /// renamed, or its metadata could not be had; the text is the
    /// system's.
    IoError(String),
    /// A directory could not be walked.
    Ignore(String),
    /// The archive could not be written or closed.
    Zip(String),
}

impl ColekError {
    /// The message that describes the error.
    pub open spec fn message(self) -> Seq<char> {
        match self {
            ColekError::NoGenericDrive => "No Generic Drive Detected"@,
            ColekError::Message(text) => text@,
            ColekError::StaticErr(text) => text@,
            ColekError::IoError(text) => "IO: "@ + text@,
            ColekError::Ignore(text) => "walkdir: "@ + text@,
            ColekError::Zip(text) => "zip: "@ + text@,
        }
    }

    /// The message that describes the error.
    pub fn to_string(&self) -> (text: String)
        ensures
            text@ == self.message(),
    {
        match self {
            ColekError::NoGenericDrive => "No Generic Drive Detected".to_owned(),
            ColekError::Message(text) => text.clone(),
            ColekError::StaticErr(text) => (*text).to_owned(),
            ColekError::IoError(text) => followed_by("IO: ", text.as_str()),
            ColekError::Ignore(text) => followed_by("walkdir: ", text.as_str()),
            ColekError::Zip(text) => followed_by("zip: ", text.as_str()),
        }
    }
}

impl From<String> for ColekError {
    fn from(value: String) -> (ret: ColekError) {
        ColekError::Message(value)
    }
}

impl FromSpecImpl<String> for ColekError {
    open spec fn obeys_from_spec() -> bool {
        true
    }

    open spec fn from_spec(value: String) -> ColekError {
        ColekError::Message(value)
    }
}

impl From<&'static str> for ColekError {
    fn from(value: &'static str) -> (ret: ColekError) {
        ColekError::StaticErr(value)
    }
}

impl FromSpecImpl<&'static str> for ColekError {
    open spec fn obeys_from_spec() -> bool {
        true
    }

    open spec fn from_spec(value: &'static str) -> ColekError {
        ColekError::StaticErr(value)
    }
}

} // verus!
