//! Finding files with the same content and deciding which of two such
//! files stays.

use vstd::prelude::*;
use crate::error::ColekError;
use crate::index::{DuplicateIndex, Hashes};
use crate::text::{followed_by, decimal, decimal_string};

verus! {

/// The 128-bit XXH3 hash of a run of bytes, with the default seed and
/// secret.
pub uninterp spec fn xxh3_128_of(bytes: Seq<u8>) -> u128;

/// `xxhash_rust::xxh3::xxh3_128` computes the 128-bit XXH3 hash of its
/// input with seed 0 and the default secret. The result depends on the
/// bytes alone; it is named, not spelled out.
pub assume_specification[ xxhash_rust::xxh3::xxh3_128 ](input: &[u8]) -> (hash: u128)
    ensures
        hash == xxh3_128_of(input@),
;

/// The content key of a file that holds `bytes`.
pub fn content_key(bytes: &[u8]) -> (key: Hashes)
    ensures
        key.hash == xxh3_128_of(bytes@),
        key.size == bytes@.len(),
{
    Hashes::new(xxhash_rust::xxh3::xxh3_128(bytes), bytes.len())
}

/// What is done with the file that loses against its duplicate.
#[derive(Debug, Clone, Copy, PartialEq, Eq, Structural)]
pub enum HasherEventDuplicate {
    /// It is deleted.
    Remove,
    /// It gets a suffix made of its content hash.
    Rename,
    /// The pair is reported and nothing is changed.
    Print,
}

/// Whether the incoming file is kept, given when it and the indexed file
/// were created: the earlier file stays, and the indexed one where both
/// are equally old.
pub open spec fn keeps_incoming(incoming_created: u128, indexed_created: u128) -> bool {
    incoming_created < indexed_created
}

/// Of a duplicate pair, the path of the file that stays.
pub open spec fn kept_of(
    incoming: Seq<char>,
    indexed: Seq<char>,
    incoming_created: u128,
    indexed_created: u128,
) -> Seq<char> {
    if keeps_incoming(incoming_created, indexed_created) {
        incoming
    } else {
        indexed
    }
}

/// Of a duplicate pair, the path of the file that does not stay.
pub open spec fn dropped_of(
    incoming: Seq<char>,
    indexed: Seq<char>,
    incoming_created: u128,
    indexed_created: u128,
) -> Seq<char> {
    if keeps_incoming(incoming_created, indexed_created) {
        indexed
    } else {
        incoming
    }
}

/// The index after a file with the key `key` came in from `path`: a new
/// key is indexed, a known key leaves the index as it is.
pub open spec fn taken_in(
    index: Map<Hashes, Seq<char>>,
    key: Hashes,
    path: Seq<char>,
) -> Map<Hashes, Seq<char>> {
    if index.contains_key(key) {
        index
    } else {
        index.insert(key, path)
    }
}

/// The name that a dropped file gets under `Rename`: its path, a hyphen
/// and its content hash in decimal.
pub open spec fn renamed(path: Seq<char>, hash: u128) -> Seq<char> {
    path + seq!['-'] + decimal(hash as nat)
}

/// The decision on a pair of files with the same content.
#[derive(Debug, PartialEq, Eq)]
pub struct Resolution {
    /// The file that came in.
    pub incoming: String,
    /// The file that the index held.
    pub indexed: String,
    /// Whether the incoming file is the one that stays.
    pub keeps_incoming: bool,
    /// The content hash of both.
    pub hash: u128,
    /// What to do with the file that does not stay.
    pub event: HasherEventDuplicate,
}

impl Resolution {
    /// The path of the file that stays.
    pub open spec fn kept(self) -> Seq<char> {
        if self.keeps_incoming {
            self.incoming@
        } else {
            self.indexed@
        }
    }

    /// The path of the file that does not stay.
    pub open spec fn dropped(self) -> Seq<char> {
        if self.keeps_incoming {
            self.indexed@
        } else {
            self.incoming@
        }
    }

    /// The lines that report the pair.
    pub open spec fn report(self) -> Seq<Seq<char>> {
        seq![
            "==================== DUPLICATE ======================"@,
            "=> "@ + self.incoming@ + " ("@ + decimal(self.hash as nat) + ")"@,
            "=> "@ + self.indexed@ + " ("@ + decimal(self.hash as nat) + ")"@,
            ""@,
        ]
    }

    /// The path of the file that stays.
    pub fn kept_path(&self) -> (path: &String)
        ensures
            path@ == self.kept(),
    {
        if self.keeps_incoming {
            &self.incoming
        } else {
            &self.indexed
        }
    }

    /// The path of the file that does not stay.
    pub fn dropped_path(&self) -> (path: &String)
        ensures
            path@ == self.dropped(),
    {
        if self.keeps_incoming {
            &self.indexed
        } else {
            &self.incoming
        }
    }

    /// The path that the dropped file moves to under `Rename`.
    pub fn rename_target(&self) -> (path: String)
        ensures
            path@ == renamed(self.dropped(), self.hash),
    {
        let mut path = followed_by(self.dropped_path().as_str(), "-");
        let digits = decimal_string(self.hash);
        path.append(digits.as_str());
        proof {
            reveal_strlit("-");
            assert("-"@ =~= seq!['-']);
        }
        path
    }

    /// The lines that report the pair, the incoming file first.
    pub fn report_lines(&self) -> (lines: Vec<String>)
        ensures
            lines@.len() == 4,
            forall|i: int| 0 <= i < 4 ==> (#[trigger] lines@[i])@ == self.report()[i],
    {
        let digits = decimal_string(self.hash);
        let mut first = followed_by("=> ", self.incoming.as_str());
        first.append(" (");
        first.append(digits.as_str());
        first.append(")");
        let mut second = followed_by("=> ", self.indexed.as_str());
        second.append(" (");
        second.append(digits.as_str());
        second.append(")");
        let mut lines: Vec<String> = Vec::new();
        lines.push("==================== DUPLICATE ======================".to_owned());
        lines.push(first);
        lines.push(second);
        lines.push("".to_owned());
        lines
    }
}

/// The duplicate engine: the action to take on a duplicate, and the index
/// of the files kept so far.
#[derive(Debug)]
pub struct AppHasher {
    event_duplicate: HasherEventDuplicate,
    hashes: DuplicateIndex,
}

impl AppHasher {
    /// The action taken on the file that loses.
    pub closed spec fn event(&self) -> HasherEventDuplicate {
        self.event_duplicate
    }

    /// The index: for each content key seen, the path kept for it.
    pub closed spec fn index(&self) -> Map<Hashes, Seq<char>> {
        self.hashes@
    }

    /// An engine with an empty index.
    pub fn new(event_duplicate: HasherEventDuplicate) -> (engine: AppHasher)
        ensures
            engine.event() == event_duplicate,
            engine.index() == Map::<Hashes, Seq<char>>::empty(),
    {
        AppHasher { event_duplicate, hashes: DuplicateIndex::new() }
    }

    /// The action taken on the file that loses.
    pub fn event_duplicate(&self) -> (event: HasherEventDuplicate)
        ensures
            event == self.event(),
    {
        self.event_duplicate
    }

    /// The path kept for `key`, if the key has been seen.
    pub fn lookup(&self, key: &Hashes) -> (path: Option<&String>)
        ensures
            match path {
                Some(p) => self.index().contains_key(*key) && self.index()[*key] == p@,
                None => !self.index().contains_key(*key),
            },
    {
        self.hashes.get(key)
    }

    /// Takes in a file. Where its key is new, the file is indexed and
    /// `None` comes back. Where the key is known, the index stays as it is
    /// and the path that it holds comes back: the two files are a
    /// duplicate pair, to be settled by `on_duplicate`.
    pub fn take_in(&mut self, key: Hashes, path: &str) -> (indexed: Option<String>)
        ensures
            final(self).event() == old(self).event(),
            final(self).index() == taken_in(old(self).index(), key, path@),
            match indexed {
                Some(p) => old(self).index().contains_key(key) && p@ == old(self).index()[key],
                None => !old(self).index().contains_key(key),
            },
    {
        let found = match self.hashes.get(&key) {
            Some(p) => Some(p.clone()),
            None => None,
        };
        if found.is_none() {
            self.hashes.insert(key, path.to_owned());
        }
        found
    }

    /// Settles a duplicate pair: `incoming` has the content key `key`, for
    /// which the index holds `indexed`. Each creation time is given in
    /// nanoseconds, or as the text of the error that reading it gave.
    ///
    /// Where either time is missing the pair is passed over: the index
    /// stays as it is and the error comes back. Otherwise the earlier file
    /// is kept, the index holds it for `key`, and the decision comes
    /// back.
    pub fn on_duplicate(
        &mut self,
        key: Hashes,
        incoming: String,
        indexed: String,
        incoming_created: Result<u128, String>,
        indexed_created: Result<u128, String>,
    ) -> (outcome: Result<Resolution, ColekError>)
        ensures
            final(self).event() == old(self).event(),
            match (incoming_created, indexed_created) {
                (Err(text), _) => outcome == Err::<Resolution, ColekError>(
                    ColekError::IoError(text),
                ) && final(self).index() == old(self).index(),
                (Ok(_), Err(text)) => outcome == Err::<Resolution, ColekError>(
                    ColekError::IoError(text),
                ) && final(self).index() == old(self).index(),
                (Ok(a), Ok(b)) => outcome == Ok::<Resolution, ColekError>(
                    Resolution {
                        incoming,
                        indexed,
                        keeps_incoming: keeps_incoming(a, b),
                        hash: key.hash,
                        event: old(self).event(),
                    },
                ) && final(self).index() == old(self).index().insert(
                    key,
                    kept_of(incoming@, indexed@, a, b),
                ),
            },
    {
        let a = match incoming_created {
            Ok(a) => a,
            Err(text) => {
                return Err(ColekError::IoError(text));
            },
        };
        let b = match indexed_created {
            Ok(b) => b,
            Err(text) => {
                return Err(ColekError::IoError(text));
            },
        };
        let resolution = Resolution {
            incoming,
            indexed,
            keeps_incoming: a < b,
            hash: key.hash,
            event: self.event_duplicate,
        };
        let keep = resolution.kept_path().clone();
        self.hashes.insert(key, keep);
        Ok(resolution)
    }
}

} // verus!
