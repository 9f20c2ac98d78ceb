//! The print sink: every wanted file is listed, and the run ends with a
//! count of files and bytes.

use vstd::prelude::*;
use crate::error::ColekError;
use crate::text::{followed_by, decimal, decimal_string};

verus! {

/// The line that lists a path.
pub open spec fn listing(path: Seq<char>) -> Seq<char> {
    "path: '"@ + path + "'"@
}

/// The print sink: the number of files seen and the sum of their sizes,
/// both counted modulo the size of `usize`.
#[derive(Debug)]
pub struct AppDefault {
    count: usize,
    size: usize,
}

impl AppDefault {
    /// The number of files seen.
    pub closed spec fn files(&self) -> usize {
        self.count
    }

    /// The sum of the sizes of the files seen.
    pub closed spec fn bytes(&self) -> usize {
        self.size
    }

    /// A sink that has seen nothing.
    pub fn new() -> (sink: Result<AppDefault, ColekError>)
        ensures
            sink is Ok,
            sink->Ok_0.files() == 0,
            sink->Ok_0.bytes() == 0,
    {
        Ok(AppDefault { count: 0, size: 0 })
    }

    /// Takes in a file of `len` bytes; a file whose size could not be
    /// read counts with no bytes.
    pub fn file_scan(&mut self, len: Option<u64>)
        ensures
            final(self).files() == old(self).files().wrapping_add(1),
            final(self).bytes() == old(self).bytes().wrapping_add(
                match len {
                    Some(n) => n as usize,
                    None => 0,
                },
            ),
    {
        let bytes: usize = match len {
            Some(n) => #[verifier::truncate] (n as usize),
            None => 0,
        };
        self.size = self.size.wrapping_add(bytes);
        self.count = self.count.wrapping_add(1);
    }

    /// The number of files seen.
    pub fn count(&self) -> (count: usize)
        ensures
            count == self.files(),
    {
        self.count
    }

    /// The sum of the sizes of the files seen.
    pub fn size(&self) -> (size: usize)
        ensures
            size == self.bytes(),
    {
        self.size
    }

    /// The line that lists `path`.
    pub fn on_blocking(path: &str) -> (line: String)
        ensures
            line@ == listing(path@),
    {
        let mut line = followed_by("path: '", path);
        line.append("'");
        line
    }

    /// The first lines of the summary that ends a run: a rule, and the
    /// number of files seen.
    pub fn on_finish(&self) -> (lines: Vec<String>)
        ensures
            lines@.len() == 2,
            lines@[0]@ == "============= Finish Scanning ============="@,
            lines@[1]@ == "size scanned            : "@ + decimal(self.files() as nat),
    {
        let count = decimal_string(self.count as u128);
        let mut lines: Vec<String> = Vec::new();
        lines.push("============= Finish Scanning =============".to_owned());
        lines.push(followed_by("size scanned            : ", count.as_str()));
        lines
    }
}

} // verus!
