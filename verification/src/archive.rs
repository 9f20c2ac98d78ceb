//! The archive sink: every wanted file becomes one entry of a compressed
//! container.

use vstd::prelude::*;
use crate::copy::{entry_name, name_view, stored_name};
use crate::error::ColekError;
use crate::text::followed_by;

verus! {

/// The message for a container path that has no parent directory.
pub open spec fn no_parent_message(path: Seq<char>) -> Seq<char> {
    "failed to get parrent path: '"@ + path + "' - path terminates in root"@
}

/// The archive sink: it knows the container's path and how many files it
/// has named.
#[derive(Debug)]
pub struct AppZip {
    zipfilepath: String,
    counter: usize,
}

impl AppZip {
    /// The path of the container.
    pub closed spec fn path(&self) -> Seq<char> {
        self.zipfilepath@
    }

    /// The number of files named so far, counted modulo the size of
    /// `usize`.
    pub closed spec fn named(&self) -> usize {
        self.counter
    }

    /// A sink that writes the container `zipfilepath`, whose parent
    /// directory is `parent`. A path without a parent is refused.
    pub fn new(zipfilepath: String, parent: Option<&str>) -> (sink: Result<AppZip, ColekError>)
        ensures
            match sink {
                Ok(zip) => parent is Some && zip.path() == zipfilepath@ && zip.named() == 0,
                Err(ColekError::Message(text)) => parent is None && text@ == no_parent_message(
                    zipfilepath@,
                ),
                Err(_) => false,
            },
    {
        match parent {
            Some(_) => Ok(AppZip { zipfilepath, counter: 0 }),
            None => {
                let mut text = followed_by("failed to get parrent path: '", zipfilepath.as_str());
                text.append("' - path terminates in root");
                Err(ColekError::Message(text))
            },
        }
    }

    /// The path of the container.
    pub fn zipfilepath(&self) -> (path: &String)
        ensures
            path@ == self.path(),
    {
        &self.zipfilepath
    }

    /// The name of the entry for the next file: the file's own name, or
    /// the numeral of the number of files named before it. The file is
    /// counted whether or not it is then stored.
    pub fn next_entry(&mut self, file_name: Option<&str>) -> (name: String)
        ensures
            name@ == stored_name(name_view(file_name), old(self).named()),
            final(self).named() == old(self).named().wrapping_add(1),
            final(self).path() == old(self).path(),
    {
        let name = entry_name(file_name, self.counter);
        self.counter = self.counter.wrapping_add(1);
        name
    }
}

} // verus!
