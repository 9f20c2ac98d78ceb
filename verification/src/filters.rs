//! Media kinds, sets of them, and the extension tables by which a file is
//! recognised.

use vstd::prelude::*;
use vstd::std_specs::convert::FromSpecImpl;
use vstd::std_specs::ops::BitOrSpecImpl;
use crate::text::str_equal;

verus! {

/// File extensions of still images.
pub const IMAGES_EXT: [&'static str; 20] = [
    "avif", "jpg", "jpeg", "png", "gif", "webp", "tif", "tiff", "tga", "dds", "hdr", "exr", "pbm",
    "pam", "ppm", "pgm", "ff", "farbfeld", "qoi", "heic",
];

/// File extensions of videos.
pub const VIDEOS_EXT: [&'static str; 13] = [
    "mp4", "mkv", "webm", "mov", "m4p", "m4v", "mpg", "mpg", "mp2", "mpeg", "mpe", "mpv", "3gp",
];

/// File extensions of music.
pub const MUSIC_EXT: [&'static str; 2] = ["mp3", "flac"];

/// Whether `ext` is one of the entries of `table`.
pub open spec fn listed(table: Seq<&'static str>, ext: Seq<char>) -> bool {
    exists|i: int| 0 <= i < table.len() && (#[trigger] table[i])@ == ext
}

fn table_lists(table: &[&'static str], ext: &str) -> (yes: bool)
    ensures
        yes == listed(table@, ext@),
{
    let mut i: usize = 0;
    while i < table.len()
        invariant
            i <= table@.len(),
            forall|k: int| 0 <= k < i ==> (#[trigger] table@[k])@ != ext@,
        decreases table@.len() - i,
    {
        if str_equal(table[i], ext) {
            return true;
        }
        i += 1;
    }
    false
}

/// A kind of media, or all of them.
#[derive(Debug, Clone, Copy, PartialEq, Eq, PartialOrd, Ord, Structural)]
pub enum Filter {
    Image,
    Video,
    Music,
    All,
}

impl Filter {
    /// The bits that stand for this filter in a `Filters` value.
    pub open spec fn bits(self) -> u16 {
        match self {
            Filter::Image => 2,
            Filter::Video => 4,
            Filter::Music => 8,
            Filter::All => 14,
        }
    }

    /// The basic kinds that this filter stands for.
    pub open spec fn members(self) -> Set<Filter> {
        match self {
            Filter::All => set![Filter::Image, Filter::Video, Filter::Music],
            _ => set![self],
        }
    }

    /// Whether `ext`, in lower case, is an extension of this kind; for
    /// `All`, of any kind.
    pub open spec fn owns(self, ext: Seq<char>) -> bool {
        match self {
            Filter::Image => listed(IMAGES_EXT@, ext),
            Filter::Video => listed(VIDEOS_EXT@, ext),
            Filter::Music => listed(MUSIC_EXT@, ext),
            Filter::All => listed(IMAGES_EXT@, ext) || listed(VIDEOS_EXT@, ext) || listed(
                MUSIC_EXT@,
                ext,
            ),
        }
    }

    /// The kind whose table lists `ext`, if any.
    pub open spec fn kind_of(ext: Seq<char>) -> Option<Filter> {
        if listed(IMAGES_EXT@, ext) {
            Some(Filter::Image)
        } else if listed(VIDEOS_EXT@, ext) {
            Some(Filter::Video)
        } else if listed(MUSIC_EXT@, ext) {
            Some(Filter::Music)
        } else {
            None
        }
    }

    /// The bits of all three kinds together.
    pub fn all() -> (bits: u16)
        ensures
            bits == Filter::All.bits(),
    {
        14
    }

    /// The bits that stand for this filter.
    pub fn as_u16(self) -> (bits: u16)
        ensures
            bits == self.bits(),
    {
        match self {
            Filter::Image => 2,
            Filter::Video => 4,
            Filter::Music => 8,
            Filter::All => Filter::all(),
        }
    }

    /// The kind of media that the extension `ext`, given in lower case,
    /// names.
    pub fn from_extension(ext: &str) -> (kind: Option<Filter>)
        ensures
            kind == Filter::kind_of(ext@),
    {
        if table_lists(&IMAGES_EXT, ext) {
            Some(Filter::Image)
        } else if table_lists(&VIDEOS_EXT, ext) {
            Some(Filter::Video)
        } else if table_lists(&MUSIC_EXT, ext) {
            Some(Filter::Music)
        } else {
            None
        }
    }

    /// Whether `ext`, given in lower case, is an extension of this kind.
    pub fn is_extension(self, ext: &str) -> (yes: bool)
        ensures
            yes == self.owns(ext@),
    {
        match self {
            Filter::Image => table_lists(&IMAGES_EXT, ext),
            Filter::Video => table_lists(&VIDEOS_EXT, ext),
            Filter::Music => table_lists(&MUSIC_EXT, ext),
            Filter::All => table_lists(&IMAGES_EXT, ext) || table_lists(&VIDEOS_EXT, ext)
                || table_lists(&MUSIC_EXT, ext),
        }
    }

    /// The filter's name.
    pub fn to_string(self) -> (name: String)
        ensures
            name@ == match self {
                Filter::Image => "Image"@,
                Filter::Video => "Video"@,
                Filter::Music => "Music"@,
                Filter::All => "All"@,
            },
    {
        match self {
            Filter::Image => "Image".to_owned(),
            Filter::Video => "Video".to_owned(),
            Filter::Music => "Music".to_owned(),
            Filter::All => "All".to_owned(),
        }
    }
}

/// The union of the members of all filters in `list`.
pub open spec fn members_of(list: Seq<Filter>) -> Set<Filter> {
    Set::new(|g: Filter| exists|i: int| 0 <= i < list.len() && (#[trigger] list[i]).members().contains(g))
}

/// A set of media kinds.
#[derive(Debug, Clone, Copy, PartialEq, Eq, PartialOrd, Ord, Structural)]
pub struct Filters(u16);

impl View for Filters {
    type V = Set<Filter>;

    /// The basic kinds in the set.
    closed spec fn view(&self) -> Set<Filter> {
        Set::new(|g: Filter| g != Filter::All && self.0 & g.bits() != 0)
    }
}

proof fn lemma_bits(x: u16, y: u16)
    ensures
        (x | y) & 2 != 0 <==> (x & 2 != 0 || y & 2 != 0),
        (x | y) & 4 != 0 <==> (x & 4 != 0 || y & 4 != 0),
        (x | y) & 8 != 0 <==> (x & 8 != 0 || y & 8 != 0),
        x & 14 != 0 <==> (x & 2 != 0 || x & 4 != 0 || x & 8 != 0),
        14u16 & 2 != 0 && 14u16 & 4 != 0 && 14u16 & 8 != 0,
        2u16 & 2 != 0 && 2u16 & 4 == 0 && 2u16 & 8 == 0,
        4u16 & 2 == 0 && 4u16 & 4 != 0 && 4u16 & 8 == 0,
        8u16 & 2 == 0 && 8u16 & 4 == 0 && 8u16 & 8 != 0,
        0u16 & 2 == 0 && 0u16 & 4 == 0 && 0u16 & 8 == 0,
{
    assert((x | y) & 2 != 0 <==> (x & 2 != 0 || y & 2 != 0)) by (bit_vector);
    assert((x | y) & 4 != 0 <==> (x & 4 != 0 || y & 4 != 0)) by (bit_vector);
    assert((x | y) & 8 != 0 <==> (x & 8 != 0 || y & 8 != 0)) by (bit_vector);
    assert(x & 14 != 0 <==> (x & 2 != 0 || x & 4 != 0 || x & 8 != 0)) by (bit_vector);
    assert(14u16 & 2 != 0 && 14u16 & 4 != 0 && 14u16 & 8 != 0) by (bit_vector);
    assert(2u16 & 2 != 0 && 2u16 & 4 == 0 && 2u16 & 8 == 0) by (bit_vector);
    assert(4u16 & 2 == 0 && 4u16 & 4 != 0 && 4u16 & 8 == 0) by (bit_vector);
    assert(8u16 & 2 == 0 && 8u16 & 4 == 0 && 8u16 & 8 != 0) by (bit_vector);
    assert(0u16 & 2 == 0 && 0u16 & 4 == 0 && 0u16 & 8 == 0) by (bit_vector);
}

impl Filters {
    /// Whether the set holds a kind that `f` stands for.
    pub open spec fn has(self, f: Filter) -> bool {
        exists|g: Filter| self@.contains(g) && f.members().contains(g)
    }

    /// Whether the set lets a file with extension `ext`, in lower case, pass.
    pub open spec fn admits(self, ext: Seq<char>) -> bool {
        exists|g: Filter| self@.contains(g) && g.owns(ext)
    }

    /// The set never holds `All` itself: `All` stands for its three members.
    pub proof fn lemma_basic(self)
        ensures
            !self@.contains(Filter::All),
            self@.finite(),
    {
        assert(self@.subset_of(set![Filter::Image, Filter::Video, Filter::Music]));
        vstd::set_lib::lemma_len_subset(self@, set![Filter::Image, Filter::Video, Filter::Music]);
    }

    /// Whether the set holds a kind that `f` stands for.
    pub fn contains(self, f: Filter) -> (yes: bool)
        ensures
            yes == self.has(f),
    {
        proof {
            lemma_bits(self.0, 0);
            if self.0 & f.bits() != 0 {
                let g = if f != Filter::All {
                    f
                } else if self.0 & 2 != 0 {
                    Filter::Image
                } else if self.0 & 4 != 0 {
                    Filter::Video
                } else {
                    Filter::Music
                };
                assert(self@.contains(g) && f.members().contains(g));
            }
        }
        (self.0 & f.as_u16()) != 0
    }

    /// Whether the set holds `f` and `ext`, given in lower case, is an
    /// extension of `f`.
    pub fn contains_ext(self, f: Filter, ext: &str) -> (yes: bool)
        ensures
            yes == (self.has(f) && f.owns(ext@)),
    {
        if self.contains(f) {
            f.is_extension(ext)
        } else {
            false
        }
    }

    /// Whether the set lets a file with extension `ext`, given in lower
    /// case, pass.
    pub fn matches(self, ext: &str) -> (yes: bool)
        ensures
            yes == self.admits(ext@),
    {
        let yes = self.contains_ext(Filter::Image, ext) || self.contains_ext(Filter::Video, ext)
            || self.contains_ext(Filter::Music, ext);
        proof {
            self.lemma_basic();
            if self.has(Filter::Image) && Filter::Image.owns(ext@) {
                assert(self@.contains(Filter::Image));
            }
            if self.has(Filter::Video) && Filter::Video.owns(ext@) {
                assert(self@.contains(Filter::Video));
            }
            if self.has(Filter::Music) && Filter::Music.owns(ext@) {
                assert(self@.contains(Filter::Music));
            }
            if self.admits(ext@) {
                let g = choose|g: Filter| self@.contains(g) && g.owns(ext@);
                assert(g.members().contains(g));
            }
        }
        yes
    }
}

impl core::ops::BitOr<Filter> for Filters {
    type Output = Filters;

    /// The set with the members of `rhs` added.
    fn bitor(self, rhs: Filter) -> (ret: Filters)
        ensures
            ret@ == self@.union(rhs.members()),
    {
        proof {
            lemma_bits(self.0, rhs.bits());
            assert(Filters(self.0 | rhs.bits())@ =~= self@.union(rhs.members()));
        }
        Filters(self.0 | rhs.as_u16())
    }
}

impl BitOrSpecImpl<Filter> for Filters {
    open spec fn obeys_bitor_spec() -> bool {
        true
    }

    open spec fn bitor_req(self, rhs: Filter) -> bool {
        true
    }

    closed spec fn bitor_spec(self, rhs: Filter) -> Filters {
        Filters(self.0 | rhs.bits())
    }
}

impl core::ops::BitOrAssign<Filter> for Filters {
    /// Adds the members of `rhs` to the set.
    fn bitor_assign(&mut self, rhs: Filter)
        ensures
            final(self)@ == old(self)@.union(rhs.members()),
    {
        proof {
            lemma_bits(self.0, rhs.bits());
            assert(Filters(self.0 | rhs.bits())@ =~= self@.union(rhs.members()));
        }
        self.0 = self.0 | rhs.as_u16();
    }
}

proof fn lemma_members_of_push(list: Seq<Filter>, f: Filter)
    ensures
        members_of(list.push(f)) == members_of(list).union(f.members()),
{
    let longer = list.push(f);
    assert forall|g: Filter| members_of(longer).contains(g) implies members_of(list).union(
        f.members(),
    ).contains(g) by {
        let i = choose|i: int| 0 <= i < longer.len() && (#[trigger] longer[i]).members().contains(g);
        if i < list.len() {
            assert(list[i].members().contains(g));
        }
    }
    assert forall|g: Filter| members_of(list).union(f.members()).contains(g) implies members_of(
        longer,
    ).contains(g) by {
        if members_of(list).contains(g) {
            let i = choose|i: int| 0 <= i < list.len() && (#[trigger] list[i]).members().contains(g);
            assert(longer[i].members().contains(g));
        } else {
            assert(longer[list.len() as int].members().contains(g));
        }
    }
    assert(members_of(longer) =~= members_of(list).union(f.members()));
}

/// The bits of all filters in `list`, or-ed together.
spec fn union_bits(list: Seq<Filter>) -> u16
    decreases list.len(),
{
    if list.len() == 0 {
        0
    } else {
        union_bits(list.drop_last()) | list.last().bits()
    }
}

impl From<Vec<Filter>> for Filters {
    /// The set of all kinds that the filters in `value` stand for.
    fn from(value: Vec<Filter>) -> (ret: Filters)
        ensures
            ret@ == members_of(value@),
    {
        let mut set = Filters(0);
        proof {
            lemma_bits(0, 0);
            assert(set@ =~= members_of(value@.take(0)));
        }
        let mut i: usize = 0;
        while i < value.len()
            invariant
                i <= value@.len(),
                set@ == members_of(value@.take(i as int)),
                set.0 == union_bits(value@.take(i as int)),
            decreases value@.len() - i,
        {
            proof {
                lemma_members_of_push(value@.take(i as int), value@[i as int]);
                assert(value@.take(i as int).push(value@[i as int]) =~= value@.take(i + 1));
                assert(value@.take(i + 1).drop_last() =~= value@.take(i as int));
            }
            set = set | value[i];
            i += 1;
        }
        proof {
            assert(value@.take(i as int) =~= value@);
        }
        set
    }
}

impl FromSpecImpl<Vec<Filter>> for Filters {
    open spec fn obeys_from_spec() -> bool {
        true
    }

    closed spec fn from_spec(v: Vec<Filter>) -> Filters {
        Filters(union_bits(v@))
    }
}

impl Default for Filters {
    /// The set that holds images alone.
    fn default() -> (ret: Filters)
        ensures
            ret@ == set![Filter::Image],
    {
        proof {
            lemma_bits(0, 0);
            assert(Filters(2)@ =~= set![Filter::Image]);
        }
        Filters(Filter::Image.as_u16())
    }
}

} // verus!

verus! {

/// An entry of the table is one of the words written in it.
proof fn lemma_image_entry(at: int, ext: Seq<char>)
    requires
        0 <= at < IMAGES_EXT@.len(),
        IMAGES_EXT@[at]@ == ext,
    ensures
        ext == "avif"@
            || ext == "jpg"@
            || ext == "jpeg"@
            || ext == "png"@
            || ext == "gif"@
            || ext == "webp"@
            || ext == "tif"@
            || ext == "tiff"@
            || ext == "tga"@
            || ext == "dds"@
            || ext == "hdr"@
            || ext == "exr"@
            || ext == "pbm"@
            || ext == "pam"@
            || ext == "ppm"@
            || ext == "pgm"@
            || ext == "ff"@
            || ext == "farbfeld"@
            || ext == "qoi"@
            || ext == "heic"@,
{
    if at == 0 {
    } else if at == 1 {
    } else if at == 2 {
    } else if at == 3 {
    } else if at == 4 {
    } else if at == 5 {
    } else if at == 6 {
    } else if at == 7 {
    } else if at == 8 {
    } else if at == 9 {
    } else if at == 10 {
    } else if at == 11 {
    } else if at == 12 {
    } else if at == 13 {
    } else if at == 14 {
    } else if at == 15 {
    } else if at == 16 {
    } else if at == 17 {
    } else if at == 18 {
    }
}

/// An entry of the table is one of the words written in it.
proof fn lemma_video_entry(at: int, ext: Seq<char>)
    requires
        0 <= at < VIDEOS_EXT@.len(),
        VIDEOS_EXT@[at]@ == ext,
    ensures
        ext == "mp4"@
            || ext == "mkv"@
            || ext == "webm"@
            || ext == "mov"@
            || ext == "m4p"@
            || ext == "m4v"@
            || ext == "mpg"@
            || ext == "mp2"@
            || ext == "mpeg"@
            || ext == "mpe"@
            || ext == "mpv"@
            || ext == "3gp"@,
{
    if at == 0 {
    } else if at == 1 {
    } else if at == 2 {
    } else if at == 3 {
    } else if at == 4 {
    } else if at == 5 {
    } else if at == 6 {
    } else if at == 7 {
    } else if at == 8 {
    } else if at == 9 {
    } else if at == 10 {
    } else if at == 11 {
    }
}

/// An entry of the table is one of the words written in it.
proof fn lemma_music_entry(at: int, ext: Seq<char>)
    requires
        0 <= at < MUSIC_EXT@.len(),
        MUSIC_EXT@[at]@ == ext,
    ensures
        ext == "mp3"@
            || ext == "flac"@,
{
    if at == 0 {
    }
}

/// No extension is listed for two kinds.
pub proof fn law_tables_are_disjoint(ext: Seq<char>)
    ensures
        !(Filter::Image.owns(ext) && Filter::Video.owns(ext)),
        !(Filter::Image.owns(ext) && Filter::Music.owns(ext)),
        !(Filter::Video.owns(ext) && Filter::Music.owns(ext)),
{
    reveal_strlit("avif");
    assert("avif"@ =~= seq!['a', 'v', 'i', 'f']);
    reveal_strlit("jpg");
    assert("jpg"@ =~= seq!['j', 'p', 'g']);
    reveal_strlit("jpeg");
    assert("jpeg"@ =~= seq!['j', 'p', 'e', 'g']);
    reveal_strlit("png");
    assert("png"@ =~= seq!['p', 'n', 'g']);
    reveal_strlit("gif");
    assert("gif"@ =~= seq!['g', 'i', 'f']);
    reveal_strlit("webp");
    assert("webp"@ =~= seq!['w', 'e', 'b', 'p']);
    reveal_strlit("tif");
    assert("tif"@ =~= seq!['t', 'i', 'f']);
    reveal_strlit("tiff");
    assert("tiff"@ =~= seq!['t', 'i', 'f', 'f']);
    reveal_strlit("tga");
    assert("tga"@ =~= seq!['t', 'g', 'a']);
    reveal_strlit("dds");
    assert("dds"@ =~= seq!['d', 'd', 's']);
    reveal_strlit("hdr");
    assert("hdr"@ =~= seq!['h', 'd', 'r']);
    reveal_strlit("exr");
    assert("exr"@ =~= seq!['e', 'x', 'r']);
    reveal_strlit("pbm");
    assert("pbm"@ =~= seq!['p', 'b', 'm']);
    reveal_strlit("pam");
    assert("pam"@ =~= seq!['p', 'a', 'm']);
    reveal_strlit("ppm");
    assert("ppm"@ =~= seq!['p', 'p', 'm']);
    reveal_strlit("pgm");
    assert("pgm"@ =~= seq!['p', 'g', 'm']);
    reveal_strlit("ff");
    assert("ff"@ =~= seq!['f', 'f']);
    reveal_strlit("farbfeld");
    assert("farbfeld"@ =~= seq!['f', 'a', 'r', 'b', 'f', 'e', 'l', 'd']);
    reveal_strlit("qoi");
    assert("qoi"@ =~= seq!['q', 'o', 'i']);
    reveal_strlit("heic");
    assert("heic"@ =~= seq!['h', 'e', 'i', 'c']);
    reveal_strlit("mp4");
    assert("mp4"@ =~= seq!['m', 'p', '4']);
    reveal_strlit("mkv");
    assert("mkv"@ =~= seq!['m', 'k', 'v']);
    reveal_strlit("webm");
    assert("webm"@ =~= seq!['w', 'e', 'b', 'm']);
    reveal_strlit("mov");
    assert("mov"@ =~= seq!['m', 'o', 'v']);
    reveal_strlit("m4p");
    assert("m4p"@ =~= seq!['m', '4', 'p']);
    reveal_strlit("m4v");
    assert("m4v"@ =~= seq!['m', '4', 'v']);
    reveal_strlit("mpg");
    assert("mpg"@ =~= seq!['m', 'p', 'g']);
    reveal_strlit("mp2");
    assert("mp2"@ =~= seq!['m', 'p', '2']);
    reveal_strlit("mpeg");
    assert("mpeg"@ =~= seq!['m', 'p', 'e', 'g']);
    reveal_strlit("mpe");
    assert("mpe"@ =~= seq!['m', 'p', 'e']);
    reveal_strlit("mpv");
    assert("mpv"@ =~= seq!['m', 'p', 'v']);
    reveal_strlit("3gp");
    assert("3gp"@ =~= seq!['3', 'g', 'p']);
    reveal_strlit("mp3");
    assert("mp3"@ =~= seq!['m', 'p', '3']);
    reveal_strlit("flac");
    assert("flac"@ =~= seq!['f', 'l', 'a', 'c']);
    if listed(IMAGES_EXT@, ext) {
        let at = choose|i: int| 0 <= i < IMAGES_EXT@.len() && (#[trigger] IMAGES_EXT@[i])@ == ext;
        lemma_image_entry(at, ext);
    }
    if listed(VIDEOS_EXT@, ext) {
        let at = choose|i: int| 0 <= i < VIDEOS_EXT@.len() && (#[trigger] VIDEOS_EXT@[i])@ == ext;
        lemma_video_entry(at, ext);
    }
    if listed(MUSIC_EXT@, ext) {
        let at = choose|i: int| 0 <= i < MUSIC_EXT@.len() && (#[trigger] MUSIC_EXT@[i])@ == ext;
        lemma_music_entry(at, ext);
    }
}

/// The kind that `from_extension` gives is the one kind that owns the
/// extension.
pub proof fn law_kind_owns_its_extensions(kind: Filter, ext: Seq<char>)
    requires
        kind != Filter::All,
    ensures
        Filter::kind_of(ext) == Some(kind) <==> kind.owns(ext),
{
    law_tables_are_disjoint(ext);
}

} // verus!
