//! What the user asked for, and the plan of a run that follows from it.

use vstd::prelude::*;
use crate::error::ColekError;
use crate::filters::{Filter, Filters, members_of};
use crate::hasher::HasherEventDuplicate;
use crate::logger::LogLevel;
use crate::system::{DiskPartition, DriveType, SystemDiskInfo, text_of, with_role};

verus! {

/// What is done with the files found.
#[derive(Debug, Clone, PartialEq)]
pub enum Commands {
    /// Their paths are printed.
    Stdout,
    /// They are copied into `target`.
    Copy { target: Option<String> },
    /// They are stored in the container `output`.
    Zip { output: Option<String> },
    /// Duplicates among them are looked for, and `duplicate` is done with
    /// each.
    Hash { duplicate: HasherEventDuplicate },
}

/// The arguments of a run.
#[derive(Debug, Clone, PartialEq)]
pub struct CliArgs {
    /// The kinds of media wanted; images where none is named.
    pub filter: Option<Vec<Filter>>,
    /// The most detailed level of messages shown.
    pub verbose: LogLevel,
    /// What is done with the files found.
    pub command: Commands,
}

/// The sink of a run, with what it needs to start.
#[derive(Debug, PartialEq)]
pub enum Job {
    /// The print sink.
    Stdout,
    /// The copy sink, into the directory `dest`.
    Copy { dest: String },
    /// The archive sink, writing the container `dest`.
    Zip { dest: String },
    /// The duplicate engine, with the action on the file that loses.
    Hash { duplicate: HasherEventDuplicate },
}

/// A run that can start: the volumes to scan, the kinds wanted and the
/// sink.
#[derive(Debug, PartialEq)]
pub struct Plan {
    pub drives: Vec<DiskPartition>,
    pub filter: Filters,
    pub job: Job,
}

impl CliArgs {
    /// The kinds of media wanted: those named, or images where none is.
    pub fn filters(&self) -> (set: Filters)
        ensures
            set@ == match self.filter {
                Some(list) => members_of(list@),
                None => set![Filter::Image],
            },
    {
        match &self.filter {
            Some(list) => {
                let mut copy: Vec<Filter> = Vec::new();
                let mut i: usize = 0;
                while i < list.len()
                    invariant
                        i <= list@.len(),
                        copy@ == list@.take(i as int),
                    decreases list@.len() - i,
                {
                    copy.push(list[i]);
                    assert(list@.take(i as int).push(list@[i as int]) =~= list@.take(i + 1));
                    i += 1;
                }
                assert(list@.take(i as int) =~= list@);
                Filters::from(copy)
            },
            None => Filters::default(),
        }
    }
}

impl Commands {
    /// Whether `job` is the sink that the command asks for on the machine
    /// `sys`.
    pub open spec fn asks_for(self, sys: SystemDiskInfo, job: Job) -> bool {
        match (self, job) {
            (Commands::Stdout, Job::Stdout) => true,
            (Commands::Copy { target }, Job::Copy { dest }) => dest@ == sys.dest_of(
                text_of(target),
            ),
            (Commands::Zip { output }, Job::Zip { dest }) => dest@ == sys.dest_of(text_of(output)),
            (Commands::Hash { duplicate }, Job::Hash { duplicate: action }) => action == duplicate,
            _ => false,
        }
    }

    /// Plans the run: the ordinary data volumes of `sys` are scanned for
    /// the kinds in `filter`, and the files found go to the sink that the
    /// command asks for. A machine without such a volume has nothing to
    /// scan, which is an error.
    pub fn run(self, sys: &mut SystemDiskInfo, filter: Filters) -> (plan: Result<Plan, ColekError>)
        ensures
            *final(sys) == *old(sys),
            match plan {
                Ok(p) => {
                    &&& p.drives@.len() > 0
                    &&& p.drives@ == with_role(old(sys).drives@, DriveType::Generic)
                    &&& p.filter == filter
                    &&& self.asks_for(*old(sys), p.job)
                },
                Err(ColekError::NoGenericDrive) => with_role(
                    old(sys).drives@,
                    DriveType::Generic,
                ).len() == 0,
                Err(_) => false,
            },
    {
        let drives = match sys.generic_drive() {
            Some(drives) => drives,
            None => {
                return Err(ColekError::NoGenericDrive);
            },
        };
        let job = match self {
            Commands::Stdout => Job::Stdout,
            Commands::Copy { target } => Job::Copy { dest: sys.dest(target) },
            Commands::Zip { output } => Job::Zip { dest: sys.dest(output) },
            Commands::Hash { duplicate } => Job::Hash { duplicate },
        };
        Ok(Plan { drives, filter, job })
    }
}

} // verus!
