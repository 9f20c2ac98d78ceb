//! Deciding whether a file is wanted: by its extension first, by its
//! leading bytes where the extension does not tell.

use vstd::prelude::*;
use crate::filters::{Filter, Filters};
use crate::magic::{contains_magic_bytes, has_magic_bytes};

verus! {

/// The lower-case form of a string, as `str::to_lowercase` gives it.
pub uninterp spec fn lowercase(s: Seq<char>) -> Seq<char>;

/// Calls `str::to_lowercase`, which returns the lower-case equivalent of
/// a string as Unicode defines it. The result depends on the characters of
/// `s` alone; it is named, not spelled out.
#[verifier::external_body]
fn to_lowercase(s: &str) -> (lower: String)
    ensures
        lower@ == lowercase(s@),
{
    s.to_lowercase()
}

/// What the extension of a file says about it.
#[derive(Debug, Clone, Copy, PartialEq, Eq, Structural)]
pub enum Verdict {
    /// The extension is listed for a kind in the active set.
    Accept,
    /// The extension does not tell and images are wanted: the leading
    /// bytes of the file decide.
    Sniff,
    /// The file is not wanted.
    Reject,
}

/// The verdict on a file whose extension, in lower case, is `ext`.
pub open spec fn verdict_of(filters: Filters, ext: Option<Seq<char>>) -> Verdict {
    if ext is Some && filters.admits(ext->0) {
        Verdict::Accept
    } else if filters.has(Filter::Image) {
        Verdict::Sniff
    } else {
        Verdict::Reject
    }
}

/// Whether a file is wanted whose extension, in lower case, is `ext` and
/// whose leading bytes are `head`; `head` is `None` where the file could
/// not be read.
pub open spec fn wanted(filters: Filters, ext: Option<Seq<char>>, head: Option<Seq<u8>>) -> bool {
    match verdict_of(filters, ext) {
        Verdict::Accept => true,
        Verdict::Sniff => head is Some && has_magic_bytes(head->0),
        Verdict::Reject => false,
    }
}

/// The extension of a file name as given, turned to lower case.
pub open spec fn lowered(ext: Option<&str>) -> Option<Seq<char>> {
    match ext {
        Some(e) => Some(lowercase(e@)),
        None => None,
    }
}

/// The verdict on a file whose extension is already in lower case.
pub fn verdict_lowered(filters: Filters, ext: Option<&str>) -> (verdict: Verdict)
    ensures
        verdict == verdict_of(
            filters,
            match ext {
                Some(e) => Some(e@),
                None => None,
            },
        ),
{
    let listed = match ext {
        Some(e) => filters.matches(e),
        None => false,
    };
    if listed {
        Verdict::Accept
    } else if filters.contains(Filter::Image) {
        Verdict::Sniff
    } else {
        Verdict::Reject
    }
}

/// The verdict on a file with the extension `ext`, in whatever case it is
/// written.
pub fn verdict(filters: Filters, ext: Option<&str>) -> (verdict: Verdict)
    ensures
        verdict == verdict_of(filters, lowered(ext)),
{
    match ext {
        Some(e) => {
            let lower = to_lowercase(e);
            verdict_lowered(filters, Some(lower.as_str()))
        },
        None => verdict_lowered(filters, None),
    }
}

/// What the walker reports of a directory entry.
#[derive(Debug, PartialEq, Eq)]
pub struct ScanEntry {
    /// The entry's path.
    pub path: String,
    /// The last component of the path, where it has one in UTF-8.
    pub file_name: Option<String>,
    /// The extension of the file name, where it has one in UTF-8.
    pub extension: Option<String>,
    /// Whether the entry is a regular file.
    pub is_file: bool,
}

/// The verdict on what the walker came upon: an entry, or the text of the
/// error that stood in its place. Only regular files are looked at.
pub fn visit(filters: Filters, entry: &Result<ScanEntry, String>) -> (verdict: Verdict)
    ensures
        verdict == match entry {
            Ok(found) => if found.is_file {
                verdict_of(
                    filters,
                    match found.extension {
                        Some(e) => Some(lowercase(e@)),
                        None => None,
                    },
                )
            } else {
                Verdict::Reject
            },
            Err(_) => Verdict::Reject,
        },
{
    match entry {
        Ok(found) => {
            if !found.is_file {
                Verdict::Reject
            } else {
                match &found.extension {
                    Some(e) => self::verdict(filters, Some(e.as_str())),
                    None => self::verdict(filters, None),
                }
            }
        },
        Err(_) => Verdict::Reject,
    }
}

/// Whether the leading bytes of a file show it to be media; `None` stands
/// for a file that could not be read.
pub fn sniff(head: Option<&[u8]>) -> (yes: bool)
    ensures
        yes == (head is Some && has_magic_bytes(head->0@)),
{
    match head {
        Some(bytes) => contains_magic_bytes(bytes),
        None => false,
    }
}

/// The view of an optional byte slice.
pub open spec fn head_view(head: Option<&[u8]>) -> Option<Seq<u8>> {
    match head {
        Some(bytes) => Some(bytes@),
        None => None,
    }
}

/// Whether a file with extension `ext` and leading bytes `head` is wanted.
pub fn classify(filters: Filters, ext: Option<&str>, head: Option<&[u8]>) -> (yes: bool)
    ensures
        yes == wanted(filters, lowered(ext), head_view(head)),
{
    match verdict(filters, ext) {
        Verdict::Accept => true,
        Verdict::Sniff => sniff(head),
        Verdict::Reject => false,
    }
}

/// A file whose lower-case extension is listed for a kind in the active
/// set is wanted, whatever it holds.
pub proof fn law_listed_extension_is_wanted(
    filters: Filters,
    kind: Filter,
    ext: Seq<char>,
    head: Option<Seq<u8>>,
)
    requires
        filters.has(kind),
        kind != Filter::All,
        kind.owns(ext),
    ensures
        wanted(filters, Some(ext), head),
{
    let g = choose|g: Filter| filters@.contains(g) && kind.members().contains(g);
    assert(g == kind);
}

/// A file whose extension is in no table, or which has none, and whose
/// leading bytes match no signature is not wanted, whatever the active set.
pub proof fn law_unknown_file_is_not_wanted(
    filters: Filters,
    ext: Option<Seq<char>>,
    head: Option<Seq<u8>>,
)
    requires
        ext is Some ==> Filter::kind_of(ext->0) is None,
        head is Some ==> !has_magic_bytes(head->0),
    ensures
        !wanted(filters, ext, head),
{
    if ext is Some && filters.admits(ext->0) {
        let g = choose|g: Filter| filters@.contains(g) && g.owns(ext->0);
        assert(false);
    }
}

/// With images wanted, a file whose leading bytes match a known signature
/// is wanted, whatever its extension.
pub proof fn law_signature_is_wanted(filters: Filters, ext: Option<Seq<char>>, head: Seq<u8>)
    requires
        filters.has(Filter::Image),
        has_magic_bytes(head),
    ensures
        wanted(filters, ext, Some(head)),
{
}

} // verus!
