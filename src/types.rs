use vstd::prelude::*;
use vstd::string::*;

verus! {

/// Whether two strings hold the same characters.
pub fn same_text(a: &str, b: &str) -> (r: bool)
    ensures
        r == (a@ == b@),
{
    let n = a.unicode_len();
    if n != b.unicode_len() {
        return false;
    }
    let mut i: usize = 0;
    while i < n
        invariant
            n == a@.len(),
            n == b@.len(),
            i <= n,
            forall|k: int| 0 <= k < i ==> a@[k] == b@[k],
        decreases n - i,
    {
        if a.get_char(i) != b.get_char(i) {
            return false;
        }
        i = i + 1;
    }
    assert(a@ =~= b@);
    true
}

proof fn lemma_kind_names_distinct()
    ensures
        "image"@ != "video"@,
        "image"@ != "audio"@,
        "image"@ != "other"@,
        "video"@ != "audio"@,
        "video"@ != "other"@,
        "audio"@ != "other"@,
{
    reveal_strlit("image");
    reveal_strlit("video");
    reveal_strlit("audio");
    reveal_strlit("other");
    assert("image"@[0] != "video"@[0]);
    assert("image"@[0] != "audio"@[0]);
    assert("image"@[0] != "other"@[0]);
    assert("video"@[0] != "audio"@[0]);
    assert("video"@[0] != "other"@[0]);
    assert("audio"@[0] != "other"@[0]);
}

/// The kind of a stored media asset.
#[derive(Debug, Clone, Copy, PartialEq, Eq, Structural)]
pub enum MediaType {
    Image,
    Video,
    Audio,
    Other,
}

/// The name under which a media kind is stored in the index.
pub open spec fn media_type_name(t: MediaType) -> Seq<char> {
    match t {
        MediaType::Image => "image"@,
        MediaType::Video => "video"@,
        MediaType::Audio => "audio"@,
        MediaType::Other => "other"@,
    }
}

impl MediaType {
    /// Reads a stored kind name; any unknown name is `Other`.
    pub fn from_str(s: &str) -> (r: MediaType)
        ensures
            s@ == "image"@ ==> r == MediaType::Image,
            s@ == "video"@ ==> r == MediaType::Video,
            s@ == "audio"@ ==> r == MediaType::Audio,
            s@ != "image"@ && s@ != "video"@ && s@ != "audio"@ ==> r == MediaType::Other,
    {
        proof {
            lemma_kind_names_distinct();
        }
        if same_text(s, "image") {
            MediaType::Image
        } else if same_text(s, "video") {
            MediaType::Video
        } else if same_text(s, "audio") {
            MediaType::Audio
        } else {
            MediaType::Other
        }
    }

    /// The name under which this kind is stored.
    pub fn to_str(&self) -> (r: &'static str)
        ensures
            r@ == media_type_name(*self),
    {
        match self {
            MediaType::Image => "image",
            MediaType::Video => "video",
            MediaType::Audio => "audio",
            MediaType::Other => "other",
        }
    }
}

/// Whether an asset is shown as a popup or set as a wallpaper.
#[derive(Debug, Clone, Copy, PartialEq, Eq, Structural)]
pub enum MediaCategory {
    Popup,
    Wallpaper,
}

pub open spec fn category_name(c: MediaCategory) -> Seq<char> {
    match c {
        MediaCategory::Popup => "default"@,
        MediaCategory::Wallpaper => "wallpaper"@,
    }
}

impl MediaCategory {
    /// The name under which the category is stored in the index.
    pub fn as_str(&self) -> (r: &'static str)
        ensures
            r@ == category_name(*self),
    {
        match self {
            MediaCategory::Popup => "default",
            MediaCategory::Wallpaper => "wallpaper",
        }
    }

    /// Reads a stored category name.
    pub fn from_str(s: &str) -> (r: Option<MediaCategory>)
        ensures
            r is Some <==> (s@ == "default"@ || s@ == "wallpaper"@),
            r is Some ==> category_name(r->0) == s@,
    {
        proof {
            reveal_strlit("default");
            reveal_strlit("wallpaper");
        }
        if same_text(s, "default") {
            Some(MediaCategory::Popup)
        } else if same_text(s, "wallpaper") {
            Some(MediaCategory::Wallpaper)
        } else {
            None
        }
    }
}

/// The kind of an input file, decided from its extension.
#[derive(Debug, Clone, Copy, PartialEq, Eq, Structural)]
pub enum FileType {
    Image,
    Video,
    Audio,
    Other,
}

/// A name that is not one of the file kinds.
#[derive(Debug, Clone, Copy, PartialEq, Eq, Structural)]
pub struct FromStrError();

impl FromStrError {
    /// The message that describes this error.
    pub fn message(&self) -> (r: String)
        ensures
            r@ == "Invalid file type value"@,
    {
        String::from_str("Invalid file type value")
    }
}

pub open spec fn file_type_name(t: FileType) -> Seq<char> {
    match t {
        FileType::Image => "image"@,
        FileType::Video => "video"@,
        FileType::Audio => "audio"@,
        FileType::Other => "other"@,
    }
}

impl FileType {
    /// The name of this kind.
    pub fn as_str(&self) -> (r: &'static str)
        ensures
            r@ == file_type_name(*self),
    {
        match self {
            FileType::Image => "image",
            FileType::Video => "video",
            FileType::Audio => "audio",
            FileType::Other => "other",
        }
    }

    /// Reads a kind name; only the four names that `as_str` gives are accepted.
    pub fn from_str(s: &str) -> (r: Result<FileType, FromStrError>)
        ensures
            r is Ok <==> (s@ == "image"@ || s@ == "video"@ || s@ == "audio"@ || s@ == "other"@),
            r is Ok ==> file_type_name(r->Ok_0) == s@,
    {
        proof {
            lemma_kind_names_distinct();
        }
        if same_text(s, "image") {
            Ok(FileType::Image)
        } else if same_text(s, "video") {
            Ok(FileType::Video)
        } else if same_text(s, "audio") {
            Ok(FileType::Audio)
        } else if same_text(s, "other") {
            Ok(FileType::Other)
        } else {
            Err(FromStrError())
        }
    }
}

/// The code of a character with ASCII letters folded to lower case.
pub open spec fn lower_code(c: char) -> u32 {
    if 'A' <= c && c <= 'Z' {
        (c as u32 + 32) as u32
    } else {
        c as u32
    }
}

/// The last position in `from .. to` that holds `c`.
pub open spec fn last_pos(p: Seq<char>, c: char, from: int, to: int) -> Option<int>
    decreases to - from,
{
    if to <= from {
        None
    } else if p[to - 1] == c {
        Some(to - 1)
    } else {
        last_pos(p, c, from, to - 1)
    }
}

/// Where the extension of the last component of a `/`-separated path starts: just after
/// the last dot of that component, where that dot is not the component's first character.
pub open spec fn extension_start(p: Seq<char>) -> Option<int> {
    let name_start = match last_pos(p, '/', 0, p.len() as int) {
        Some(i) => i + 1,
        None => 0,
    };
    match last_pos(p, '.', name_start + 1, p.len() as int) {
        Some(d) => Some(d + 1),
        None => None,
    }
}

/// Whether `ext`, with ASCII letters folded to lower case, equals `word`.
pub open spec fn ext_is(ext: Seq<char>, word: Seq<char>) -> bool {
    ext.len() == word.len() && forall|i: int|
        0 <= i < ext.len() ==> lower_code(#[trigger] ext[i]) == word[i] as u32
}

/// The kind that an extension names.
pub open spec fn file_type_of_ext(ext: Seq<char>) -> FileType {
    if ext_is(ext, "jpg"@) || ext_is(ext, "jpeg"@) || ext_is(ext, "png"@) || ext_is(ext, "gif"@)
        || ext_is(ext, "webp"@) || ext_is(ext, "avif"@) || ext_is(ext, "bmp"@) || ext_is(
        ext,
        "tiff"@,
    ) {
        FileType::Image
    } else if ext_is(ext, "mp4"@) || ext_is(ext, "mkv"@) || ext_is(ext, "avi"@) || ext_is(
        ext,
        "mov"@,
    ) || ext_is(ext, "webm"@) || ext_is(ext, "m4v"@) {
        FileType::Video
    } else if ext_is(ext, "mp3"@) || ext_is(ext, "wav"@) || ext_is(ext, "flac"@) || ext_is(
        ext,
        "ogg"@,
    ) || ext_is(ext, "opus"@) || ext_is(ext, "m4a"@) {
        FileType::Audio
    } else {
        FileType::Other
    }
}

/// The kind that a path's extension names; `Other` without an extension.
pub open spec fn file_type_of_path(p: Seq<char>) -> FileType {
    match extension_start(p) {
        Some(s) => file_type_of_ext(p.subrange(s, p.len() as int)),
        None => FileType::Other,
    }
}

pub(crate) proof fn lemma_last_pos_range(p: Seq<char>, c: char, from: int, to: int)
    ensures
        last_pos(p, c, from, to) matches Some(i) ==> from <= i < to,
    decreases to - from,
{
    if to > from && p[to - 1] != c {
        lemma_last_pos_range(p, c, from, to - 1);
    }
}

/// The last position in `from .. to` of `p` that holds `c`.
pub(crate) fn find_last(p: &str, c: char, from: usize, to: usize) -> (r: Option<usize>)
    requires
        to <= p@.len(),
    ensures
        r matches Some(i) ==> last_pos(p@, c, from as int, to as int) == Some(i as int),
        r is None ==> last_pos(p@, c, from as int, to as int) is None,
    decreases to,
{
    proof {
        lemma_last_pos_range(p@, c, from as int, to as int);
    }
    if to <= from {
        None
    } else if p.get_char(to - 1) == c {
        Some(to - 1)
    } else {
        find_last(p, c, from, to - 1)
    }
}

/// Whether `p[start..]`, with ASCII letters folded to lower case, equals `word`.
fn ext_matches(p: &str, start: usize, word: &str) -> (r: bool)
    requires
        start <= p@.len(),
    ensures
        r == ext_is(p@.subrange(start as int, p@.len() as int), word@),
{
    let n = p.unicode_len();
    let m = word.unicode_len();
    if n - start != m {
        return false;
    }
    let ghost ext = p@.subrange(start as int, p@.len() as int);
    let mut i: usize = 0;
    while i < m
        invariant
            n == p@.len(),
            m == word@.len(),
            ext == p@.subrange(start as int, p@.len() as int),
            ext.len() == m,
            start + m == n,
            i <= m,
            forall|k: int| 0 <= k < i ==> lower_code(#[trigger] ext[k]) == word@[k] as u32,
        decreases m - i,
    {
        let c = p.get_char(start + i);
        let w = word.get_char(i);
        let code: u32 = if 'A' <= c && c <= 'Z' {
            c as u32 + 32
        } else {
            c as u32
        };
        assert(ext[i as int] == c);
        if code != w as u32 {
            return false;
        }
        i = i + 1;
    }
    true
}

/// Decides a file's kind from the extension of its path (ASCII case ignored).
pub fn classify_ext(path: &str) -> (r: FileType)
    ensures
        r == file_type_of_path(path@),
{
    let n = path.unicode_len();
    proof {
        lemma_last_pos_range(path@, '/', 0, n as int);
    }
    let name_start: usize = match find_last(path, '/', 0, n) {
        Some(i) => i + 1,
        None => 0,
    };
    proof {
        lemma_last_pos_range(path@, '/', 0, n as int);
    }
    if name_start >= n {
        return FileType::Other;
    }
    let dot = find_last(path, '.', name_start + 1, n);
    proof {
        lemma_last_pos_range(path@, '.', name_start + 1, n as int);
    }
    let s = match dot {
        Some(d) => d + 1,
        None => {
            return FileType::Other;
        },
    };
    if ext_matches(path, s, "jpg") || ext_matches(path, s, "jpeg") || ext_matches(path, s, "png")
        || ext_matches(path, s, "gif") || ext_matches(path, s, "webp") || ext_matches(
        path,
        s,
        "avif",
    ) || ext_matches(path, s, "bmp") || ext_matches(path, s, "tiff") {
        FileType::Image
    } else if ext_matches(path, s, "mp4") || ext_matches(path, s, "mkv") || ext_matches(
        path,
        s,
        "avi",
    ) || ext_matches(path, s, "mov") || ext_matches(path, s, "webm") || ext_matches(
        path,
        s,
        "m4v",
    ) {
        FileType::Video
    } else if ext_matches(path, s, "mp3") || ext_matches(path, s, "wav") || ext_matches(
        path,
        s,
        "flac",
    ) || ext_matches(path, s, "ogg") || ext_matches(path, s, "opus") || ext_matches(
        path,
        s,
        "m4a",
    ) {
        FileType::Audio
    } else {
        FileType::Other
    }
}

/// The kind an input file is packed as: an image with more than one frame is packed as
/// a video; every other file keeps the kind of its extension.
pub fn packed_type(by_extension: FileType, animated: bool) -> (r: FileType)
    ensures
        r == (if by_extension == FileType::Image && animated {
            FileType::Video
        } else {
            by_extension
        }),
{
    if by_extension == FileType::Image && animated {
        FileType::Video
    } else {
        by_extension
    }
}

} // verus!
