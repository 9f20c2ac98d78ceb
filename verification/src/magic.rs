//! Leading byte signatures by which a file without a telling extension is
//! still recognised as media.

use vstd::prelude::*;
use crate::text::starts_with;

verus! {

/// How many leading bytes of a file are looked at, at most.
pub const MAGIC_BYTE_MAX_LEN: usize = 64;

/// PNG: `\x89PNG\r\n\x1a\n`.
pub const PNG: [u8; 8] = [0x89, 0x50, 0x4E, 0x47, 0x0D, 0x0A, 0x1A, 0x0A];

/// JPEG.
pub const JPEG: [u8; 3] = [0xFF, 0xD8, 0xFF];

/// GIF: `GIF89a`.
pub const GIF89A: [u8; 6] = [0x47, 0x49, 0x46, 0x38, 0x39, 0x61];

/// GIF: `GIF87a`.
pub const GIF87A: [u8; 6] = [0x47, 0x49, 0x46, 0x38, 0x37, 0x61];

/// WebP and other RIFF containers: `RIFF`.
pub const RIFF: [u8; 4] = [0x52, 0x49, 0x46, 0x46];

/// TIFF, big endian: `MM\0*`.
pub const TIFF_MM: [u8; 4] = [0x4D, 0x4D, 0x00, 0x2A];

/// TIFF, little endian: `II*\0`.
pub const TIFF_II: [u8; 4] = [0x49, 0x49, 0x2A, 0x00];

/// DirectDraw surface: `DDS `.
pub const DDS: [u8; 4] = [0x44, 0x44, 0x53, 0x20];

/// Radiance HDR: `#?RADIANCE`.
pub const HDR: [u8; 10] = [0x23, 0x3F, 0x52, 0x41, 0x44, 0x49, 0x41, 0x4E, 0x43, 0x45];

/// HEIC: `ftypheic`.
pub const HEIC: [u8; 8] = [0x66, 0x74, 0x79, 0x70, 0x68, 0x65, 0x69, 0x63];

/// Netpbm, plain bitmap.
pub const PNM1: [u8; 2] = [0x50, 0x31];

/// Netpbm, plain graymap.
pub const PNM2: [u8; 2] = [0x50, 0x32];

/// Netpbm, plain pixmap.
pub const PNM3: [u8; 2] = [0x50, 0x33];

/// Netpbm, raw bitmap.
pub const PNM4: [u8; 2] = [0x50, 0x34];

/// Netpbm, raw graymap.
pub const PNM5: [u8; 2] = [0x50, 0x35];

/// Netpbm, raw pixmap.
pub const PNM6: [u8; 2] = [0x50, 0x36];

/// Netpbm, arbitrary map.
pub const PNM7: [u8; 2] = [0x50, 0x37];

/// Farbfeld: `farbfeld`.
pub const FARBFELD: [u8; 8] = [0x66, 0x61, 0x72, 0x62, 0x66, 0x65, 0x6C, 0x64];

/// AVIF with a 32-byte box: `\0\0\0 ftypavif`.
pub const AVIF_20: [u8; 12] = [
    0x00, 0x00, 0x00, 0x20, 0x66, 0x74, 0x79, 0x70, 0x61, 0x76, 0x69, 0x66,
];

/// AVIF with a 28-byte box: `\0\0\0\x1cftypavif`.
pub const AVIF_1C: [u8; 12] = [
    0x00, 0x00, 0x00, 0x1C, 0x66, 0x74, 0x79, 0x70, 0x61, 0x76, 0x69, 0x66,
];

/// OpenEXR.
pub const OPENEXR: [u8; 4] = [0x76, 0x2F, 0x31, 0x01];

/// QOI: `qoif`.
pub const QOI: [u8; 4] = [0x71, 0x6F, 0x69, 0x66];

/// ISO base media (MPEG-4): `ftypisom`.
pub const ISOM: [u8; 8] = [0x66, 0x74, 0x79, 0x70, 0x69, 0x73, 0x6F, 0x6D];

/// MPEG-4: `ftypMSNV`.
pub const MSNV: [u8; 8] = [0x66, 0x74, 0x79, 0x70, 0x4D, 0x53, 0x4E, 0x56];

/// MPEG program stream.
pub const MPEG_PS: [u8; 4] = [0x00, 0x00, 0x01, 0xBA];

/// MPEG video sequence.
pub const MPEG_SEQ: [u8; 4] = [0x00, 0x00, 0x01, 0xB3];

/// Matroska and WebM.
pub const MATROSKA: [u8; 4] = [0x1A, 0x45, 0xDF, 0xA3];

/// 3GP: `ftyp3g`.
pub const THREE_GP: [u8; 6] = [0x66, 0x74, 0x79, 0x70, 0x33, 0x67];

/// Flash video: `FLV`.
pub const FLV: [u8; 3] = [0x46, 0x4C, 0x56];

/// The number of known signatures.
pub const MAGIC_COUNT: usize = 29;

/// The known signatures, images first, then videos and containers.
pub open spec fn magic_bytes() -> Seq<Seq<u8>> {
    seq![
        PNG@, JPEG@, GIF89A@, GIF87A@, RIFF@, TIFF_MM@, TIFF_II@, DDS@, HDR@, HEIC@,
        PNM1@, PNM2@, PNM3@, PNM4@, PNM5@, PNM6@, PNM7@, FARBFELD@, AVIF_20@, AVIF_1C@,
        OPENEXR@, QOI@, ISOM@, MSNV@, MPEG_PS@, MPEG_SEQ@, MATROSKA@, THREE_GP@, FLV@,
    ]
}

/// `bytes` begins with one of the known signatures.
pub open spec fn has_magic_bytes(bytes: Seq<u8>) -> bool {
    exists|i: int| 0 <= i < magic_bytes().len() && (#[trigger] magic_bytes()[i]).is_prefix_of(bytes)
}

/// The bytes of a file that are looked at: the first `MAGIC_BYTE_MAX_LEN`,
/// or all where the file is shorter.
pub open spec fn leading(bytes: Seq<u8>) -> Seq<u8> {
    if bytes.len() <= MAGIC_BYTE_MAX_LEN {
        bytes
    } else {
        bytes.take(MAGIC_BYTE_MAX_LEN as int)
    }
}

/// No signature is longer than the bytes looked at, so these decide: what
/// follows them in a file changes nothing.
pub proof fn law_leading_bytes_decide(bytes: Seq<u8>)
    ensures
        has_magic_bytes(bytes) == has_magic_bytes(leading(bytes)),
{
    let head = leading(bytes);
    assert forall|i: int| 0 <= i < magic_bytes().len() implies (#[trigger] magic_bytes()[i]).len()
        <= MAGIC_BYTE_MAX_LEN by {
        if i < 10 {
        } else if i < 20 {
        } else {
        }
    }
    if has_magic_bytes(bytes) {
        let i = choose|i: int|
            0 <= i < magic_bytes().len() && (#[trigger] magic_bytes()[i]).is_prefix_of(bytes);
        let sig = magic_bytes()[i];
        assert(sig =~= head.subrange(0, sig.len() as int));
        assert(sig.is_prefix_of(head));
    }
    if has_magic_bytes(head) {
        let i = choose|i: int|
            0 <= i < magic_bytes().len() && (#[trigger] magic_bytes()[i]).is_prefix_of(head);
        let sig = magic_bytes()[i];
        assert(sig =~= bytes.subrange(0, sig.len() as int));
        assert(sig.is_prefix_of(bytes));
    }
}

/// The signature at position `i` of the table.
pub fn magic_at(i: usize) -> (sig: &'static [u8])
    requires
        i < MAGIC_COUNT,
    ensures
        sig@ == magic_bytes()[i as int],
{
    match i {
        0 => &PNG,
        1 => &JPEG,
        2 => &GIF89A,
        3 => &GIF87A,
        4 => &RIFF,
        5 => &TIFF_MM,
        6 => &TIFF_II,
        7 => &DDS,
        8 => &HDR,
        9 => &HEIC,
        10 => &PNM1,
        11 => &PNM2,
        12 => &PNM3,
        13 => &PNM4,
        14 => &PNM5,
        15 => &PNM6,
        16 => &PNM7,
        17 => &FARBFELD,
        18 => &AVIF_20,
        19 => &AVIF_1C,
        20 => &OPENEXR,
        21 => &QOI,
        22 => &ISOM,
        23 => &MSNV,
        24 => &MPEG_PS,
        25 => &MPEG_SEQ,
        26 => &MATROSKA,
        27 => &THREE_GP,
        _ => &FLV,
    }
}

/// Whether `bytes` begins with one of the known signatures.
pub fn contains_magic_bytes(bytes: &[u8]) -> (yes: bool)
    ensures
        yes == has_magic_bytes(bytes@),
{
    let mut i: usize = 0;
    while i < MAGIC_COUNT
        invariant
            i <= MAGIC_COUNT,
            magic_bytes().len() == MAGIC_COUNT,
            forall|k: int| 0 <= k < i ==> !(#[trigger] magic_bytes()[k]).is_prefix_of(bytes@),
        decreases MAGIC_COUNT - i,
    {
        if starts_with(bytes, magic_at(i)) {
            return true;
        }
        i += 1;
    }
    false
}

} // verus!
