//! The copy sink: every wanted file is copied into one directory.

use vstd::prelude::*;
use crate::error::ColekError;
use crate::text::{decimal, decimal_string, join_path, joined};

verus! {

/// The name under which a scanned file is stored: its own file name, or
/// the decimal numeral of `counter` where it has none.
pub open spec fn stored_name(file_name: Option<Seq<char>>, counter: usize) -> Seq<char> {
    match file_name {
        Some(name) => name,
        None => decimal(counter as nat),
    }
}

/// The view of an optional string slice.
pub open spec fn name_view(file_name: Option<&str>) -> Option<Seq<char>> {
    match file_name {
        Some(name) => Some(name@),
        None => None,
    }
}

/// The name under which a scanned file is stored.
pub fn entry_name(file_name: Option<&str>, counter: usize) -> (name: String)
    ensures
        name@ == stored_name(name_view(file_name), counter),
{
    match file_name {
        Some(name) => name.to_owned(),
        None => decimal_string(counter as u128),
    }
}

/// The number of `true` in `outcomes`.
pub open spec fn successes(outcomes: Seq<bool>) -> nat
    decreases outcomes.len(),
{
    if outcomes.len() == 0 {
        0
    } else {
        successes(outcomes.drop_last()) + if outcomes.last() {
            1nat
        } else {
            0nat
        }
    }
}

/// The counts that the worker reports for `outcomes`: after each copy
/// that went well, the number of copies that went well so far.
pub open spec fn reports(outcomes: Seq<bool>) -> Seq<nat>
    decreases outcomes.len(),
{
    if outcomes.len() == 0 {
        Seq::empty()
    } else if outcomes.last() {
        reports(outcomes.drop_last()).push(successes(outcomes))
    } else {
        reports(outcomes.drop_last())
    }
}

/// The count that a run ends with: the last one reported, or zero where
/// none was.
pub open spec fn last_report(received: Seq<nat>) -> nat {
    if received.len() == 0 {
        0
    } else {
        received.last()
    }
}

/// The copy sink: it knows the directory that files are copied into.
#[derive(Debug)]
pub struct AppCopy {
    dest: String,
}

impl AppCopy {
    /// The directory that files are copied into.
    pub closed spec fn directory(&self) -> Seq<char> {
        self.dest@
    }

    /// A sink that copies into `dest`.
    pub fn new(dest: String) -> (sink: Result<AppCopy, ColekError>)
        ensures
            sink is Ok,
            sink->Ok_0.directory() == dest@,
    {
        Ok(AppCopy { dest })
    }

    /// The directory that files are copied into.
    pub fn dest(&self) -> (dest: &String)
        ensures
            dest@ == self.directory(),
    {
        &self.dest
    }

    /// Where a scanned file is copied to: the directory, then the file's
    /// own name, or the numeral of `counter` where it has none.
    pub fn target(&self, file_name: Option<&str>, counter: usize) -> (path: String)
        ensures
            path@ == joined(self.directory(), stored_name(name_view(file_name), counter)),
    {
        let name = entry_name(file_name, counter);
        join_path(self.dest.as_str(), name.as_str())
    }

    /// The worker's count after one more copy, which went well or not, and
    /// the count to report, if any: a copy that went well is counted and
    /// reported, one that failed is passed over.
    pub fn on_copied(counter: usize, went_well: bool) -> (next: (usize, Option<usize>))
        requires
            counter < usize::MAX,
        ensures
            next.0 == counter + if went_well {
                1int
            } else {
                0int
            },
            next.1 == if went_well {
                Some((counter + 1) as usize)
            } else {
                None
            },
    {
        if went_well {
            (counter + 1, Some(counter + 1))
        } else {
            (counter, None)
        }
    }

    /// The number of files copied, from the counts that the worker
    /// reported: the last of them, or zero where there is none.
    pub fn count(received: &Vec<usize>) -> (copied: usize)
        ensures
            copied == last_report(received@.map_values(|c: usize| c as nat)),
    {
        if received.len() == 0 {
            0
        } else {
            received[received.len() - 1]
        }
    }
}

/// The count that a run ends with is the number of copies that went well.
pub proof fn law_count_is_successes(outcomes: Seq<bool>)
    ensures
        last_report(reports(outcomes)) == successes(outcomes),
    decreases outcomes.len(),
{
    if outcomes.len() > 0 {
        law_count_is_successes(outcomes.drop_last());
    }
}

} // verus!
