use vstd::prelude::*;
use crate::format_type::{FormatType, is_media_format};
use crate::text::chars_of;

verus! {

/// The extension of the last component of a path, as
/// `std::path::Path::extension` finds it (`None` where it finds none).
pub uninterp spec fn path_extension(path: Seq<char>) -> Option<Seq<char>>;

/// A text in lower case, as `str::to_lowercase` writes it.
pub uninterp spec fn text_lowercase(s: Seq<char>) -> Seq<char>;

/// Calls `std::path::Path::extension` on the path and hands back the
/// extension as text.  Trusted: the result is the name above (a path given as
/// `&str` is valid UTF-8, so its extension is too).
#[verifier::external_body]
fn extension_of(path: &str) -> (r: Option<String>)
    ensures
        match r {
            Some(e) => path_extension(path@) == Some(e@),
            None => path_extension(path@) is None,
        },
{
    match std::path::Path::new(path).extension() {
        Some(e) => e.to_str().map(str::to_string),
        None => None,
    }
}

/// Calls `str::to_lowercase`.  Trusted: the result is the name above, and
/// the lower case of the empty text is empty.
#[verifier::external_body]
fn lowercase(s: &str) -> (r: String)
    ensures
        r@ == text_lowercase(s@),
        s@.len() == 0 ==> r@.len() == 0,
{
    s.to_lowercase()
}

/// The lower-case extension of a path, or the empty text where it has none.
pub open spec fn extension_key(path: Seq<char>) -> Seq<char> {
    match path_extension(path) {
        Some(e) => text_lowercase(e),
        None => Seq::empty(),
    }
}

/// The lower-case extension of a path (empty where it has none).
pub fn extension_key_of(path: &str) -> (r: String)
    ensures
        r@ == extension_key(path@),
{
    match extension_of(path) {
        Some(e) => lowercase(e.as_str()),
        None => {
            let empty = String::new();
            let r = lowercase(empty.as_str());
            assert(r@ =~= Seq::<char>::empty());
            r
        },
    }
}

/// Whether `key` is one of the extensions.
pub fn listed(extensions: &Vec<&'static str>, key: &str) -> (r: bool)
    ensures
        r == extensions@.map_values(|e: &'static str| e@).contains(key@),
{
    let ghost views = extensions@.map_values(|e: &'static str| e@);
    let k = chars_of(key);
    let mut i: usize = 0;
    while i < extensions.len()
        invariant
            i <= extensions@.len(),
            views == extensions@.map_values(|e: &'static str| e@),
            k@ == key@,
            forall|j: int| 0 <= j < i ==> views[j] != key@,
        decreases extensions.len() - i,
    {
        let e = chars_of(extensions[i]);
        let mut same = e.len() == k.len();
        let mut m: usize = 0;
        while same && m < e.len()
            invariant
                e@ == views[i as int],
                k@ == key@,
                m <= e@.len(),
                same ==> e@.len() == k@.len(),
                same ==> forall|q: int| 0 <= q < m ==> e@[q] == k@[q],
                !same ==> e@ != k@,
            decreases e.len() - m,
        {
            if e[m] != k[m] {
                same = false;
            }
            m = m + 1;
        }
        if same {
            assert(e@ == k@);
            return true;
        }
        i = i + 1;
    }
    false
}

/// A kind of media file: the extensions it is recognized by, and the
/// version of the metadata read from it (bumped when that changes).
pub trait Format {
    spec fn spec_extensions() -> Seq<Seq<char>>;

    spec fn spec_metadata_version() -> i32;

    spec fn spec_is_photo() -> bool;

    /// The lower-case extensions of files of this format.
    fn extensions() -> (r: Vec<&'static str>)
        ensures
            r@.map_values(|e: &'static str| e@) == Self::spec_extensions(),
    ;

    fn metadata_version() -> (r: i32)
        ensures
            r == Self::spec_metadata_version(),
    ;

    /// Whether files of this format are photos.
    fn is_photo() -> (r: bool)
        ensures
            r == Self::spec_is_photo(),
    ;

    /// Whether the path's extension, in lower case, is one of the format's.
    fn is_supported(path: &str) -> (r: bool)
        ensures
            r == Self::spec_extensions().contains(extension_key(path@)),
    {
        let key = extension_key_of(path);
        listed(&Self::extensions(), key.as_str())
    }
}

/// A format whose files can be drawn as thumbnails.
pub trait Thumbnailable: Format {
    spec fn spec_thumbnail_version() -> i32;

    /// The version of the thumbnails made from files of this format (bumped
    /// when they change).
    fn thumbnail_version() -> (r: i32)
        ensures
            r == Self::spec_thumbnail_version(),
    ;
}

/// JPEG and PNG images.
pub struct Standard;

/// HEIF images.
pub struct Heif;

/// MP4 and QuickTime videos.
pub struct Video;

/// Fujifilm raw images.
pub struct Raw;

/// Audio files.
pub struct Audio;

impl Format for Standard {
    open spec fn spec_extensions() -> Seq<Seq<char>> { seq!["jpeg"@, "jpg"@, "png"@] }
    open spec fn spec_metadata_version() -> i32 { 1 }
    open spec fn spec_is_photo() -> bool { true }

    fn extensions() -> (r: Vec<&'static str>) {
        let r = vec!["jpeg", "jpg", "png"];
        assert(r@.map_values(|e: &'static str| e@) == Self::spec_extensions());
        r
    }

    fn metadata_version() -> (r: i32) { 1 }

    fn is_photo() -> (r: bool) { true }
}

impl Thumbnailable for Standard {
    open spec fn spec_thumbnail_version() -> i32 { 0 }

    fn thumbnail_version() -> (r: i32) { 0 }
}

impl Format for Heif {
    open spec fn spec_extensions() -> Seq<Seq<char>> { seq!["heif"@, "heic"@] }
    open spec fn spec_metadata_version() -> i32 { 1 }
    open spec fn spec_is_photo() -> bool { true }

    fn extensions() -> (r: Vec<&'static str>) {
        let r = vec!["heif", "heic"];
        assert(r@.map_values(|e: &'static str| e@) == Self::spec_extensions());
        r
    }

    fn metadata_version() -> (r: i32) { 1 }

    fn is_photo() -> (r: bool) { true }
}

impl Thumbnailable for Heif {
    open spec fn spec_thumbnail_version() -> i32 { 0 }

    fn thumbnail_version() -> (r: i32) { 0 }
}

impl Format for Video {
    open spec fn spec_extensions() -> Seq<Seq<char>> { seq!["mp4"@, "mov"@] }
    open spec fn spec_metadata_version() -> i32 { 2 }
    open spec fn spec_is_photo() -> bool { false }

    fn extensions() -> (r: Vec<&'static str>) {
        let r = vec!["mp4", "mov"];
        assert(r@.map_values(|e: &'static str| e@) == Self::spec_extensions());
        r
    }

    fn metadata_version() -> (r: i32) { 2 }

    fn is_photo() -> (r: bool) { false }
}

impl Thumbnailable for Video {
    open spec fn spec_thumbnail_version() -> i32 { 1 }

    fn thumbnail_version() -> (r: i32) { 1 }
}

impl Format for Raw {
    open spec fn spec_extensions() -> Seq<Seq<char>> { seq!["raf"@] }
    open spec fn spec_metadata_version() -> i32 { 0 }
    open spec fn spec_is_photo() -> bool { true }

    fn extensions() -> (r: Vec<&'static str>) {
        let r = vec!["raf"];
        assert(r@.map_values(|e: &'static str| e@) == Self::spec_extensions());
        r
    }

    fn metadata_version() -> (r: i32) { 0 }

    fn is_photo() -> (r: bool) { true }
}

impl Thumbnailable for Raw {
    open spec fn spec_thumbnail_version() -> i32 { 0 }

    fn thumbnail_version() -> (r: i32) { 0 }
}

pub open spec fn audio_extensions() -> Seq<Seq<char>> {
    seq!["mp3"@, "wav"@, "flac"@, "ogg"@, "m4a"@, "aac"@, "wma"@, "aiff"@, "alac"@, "m4a"@]
}

impl Audio {
    /// The lower-case extensions of audio files.
    pub fn extensions() -> (r: Vec<&'static str>)
        ensures
            r@.map_values(|e: &'static str| e@) == audio_extensions(),
    {
        let r = vec!["mp3", "wav", "flac", "ogg", "m4a", "aac", "wma", "aiff", "alac", "m4a"];
        assert(r@.map_values(|e: &'static str| e@) == audio_extensions());
        r
    }

    /// The version of the metadata read from audio files.
    pub fn metadata_version() -> (r: i32)
        ensures
            r == 1,
    {
        1
    }

    /// Whether the path's extension, in lower case, is an audio extension.
    pub fn is_supported(path: &str) -> (r: bool)
        ensures
            r == audio_extensions().contains(extension_key(path@)),
    {
        let key = extension_key_of(path);
        listed(&Audio::extensions(), key.as_str())
    }
}

/// The format that a file with the given extension key is read as: the
/// first of `Standard`, `Heif`, `Video`, `Raw` that lists it.
pub open spec fn format_of_key(key: Seq<char>) -> Option<FormatType> {
    if Standard::spec_extensions().contains(key) {
        Some(FormatType::Standard)
    } else if Heif::spec_extensions().contains(key) {
        Some(FormatType::Heif)
    } else if Video::spec_extensions().contains(key) {
        Some(FormatType::Video)
    } else if Raw::spec_extensions().contains(key) {
        Some(FormatType::Raw)
    } else {
        None
    }
}

/// The metadata version of a format that has a reader.
pub open spec fn format_metadata_version(f: FormatType) -> i32 {
    match f {
        FormatType::Standard => Standard::spec_metadata_version(),
        FormatType::Heif => Heif::spec_metadata_version(),
        FormatType::Video => Video::spec_metadata_version(),
        _ => Raw::spec_metadata_version(),
    }
}

/// The thumbnail version of a format that has a reader.
pub open spec fn format_thumbnail_version(f: FormatType) -> i32 {
    match f {
        FormatType::Standard => Standard::spec_thumbnail_version(),
        FormatType::Heif => Heif::spec_thumbnail_version(),
        FormatType::Video => Video::spec_thumbnail_version(),
        _ => Raw::spec_thumbnail_version(),
    }
}

/// A media file of a format that has a reader.
pub struct AnyFormat {
    format: FormatType,
    path: String,
}

impl AnyFormat {
    #[verifier::type_invariant]
    spec fn has_reader(self) -> bool {
        is_media_format(self.format)
    }

    pub closed spec fn spec_format(self) -> FormatType {
        self.format
    }

    pub closed spec fn spec_path(self) -> Seq<char> {
        self.path@
    }

    /// The file at `path`, if its extension belongs to a format that has a
    /// reader.
    pub fn try_new(path: String) -> (r: Option<AnyFormat>)
        ensures
            match r {
                Some(f) => format_of_key(extension_key(path@)) == Some(f.spec_format()) && f.spec_path() == path@,
                None => format_of_key(extension_key(path@)) is None,
            },
    {
        let format = if Standard::is_supported(path.as_str()) {
            FormatType::Standard
        } else if Heif::is_supported(path.as_str()) {
            FormatType::Heif
        } else if Video::is_supported(path.as_str()) {
            FormatType::Video
        } else if Raw::is_supported(path.as_str()) {
            FormatType::Raw
        } else {
            return None;
        };
        Some(AnyFormat { format, path })
    }

    /// The same as `try_new`.
    pub fn new(path: String) -> (r: Option<AnyFormat>)
        ensures
            match r {
                Some(f) => format_of_key(extension_key(path@)) == Some(f.spec_format()) && f.spec_path() == path@,
                None => format_of_key(extension_key(path@)) is None,
            },
    {
        AnyFormat::try_new(path)
    }

    pub fn format_type(&self) -> (r: FormatType)
        ensures
            r == self.spec_format(),
            is_media_format(r),
    {
        proof { use_type_invariant(self); }
        self.format
    }

    /// The path of the file.
    pub fn path(&self) -> (r: &String)
        ensures
            r@ == self.spec_path(),
    {
        &self.path
    }

    pub fn is_photo(&self) -> (r: bool)
        ensures
            r == (self.spec_format() != FormatType::Video),
    {
        proof { use_type_invariant(self); }
        match self.format {
            FormatType::Standard => Standard::is_photo(),
            FormatType::Heif => Heif::is_photo(),
            FormatType::Video => Video::is_photo(),
            _ => Raw::is_photo(),
        }
    }

    /// Whether thumbnails can be made from the file (every format with a
    /// reader can).
    pub fn thumbnailable(&self) -> (r: bool)
        ensures
            r == is_media_format(self.spec_format()),
            r,
    {
        proof { use_type_invariant(self); }
        match self.format {
            FormatType::Standard | FormatType::Heif | FormatType::Video | FormatType::Raw => true,
            _ => false,
        }
    }

    pub fn metadata_version(&self) -> (r: i32)
        ensures
            r == format_metadata_version(self.spec_format()),
    {
        proof { use_type_invariant(self); }
        match self.format {
            FormatType::Standard => Standard::metadata_version(),
            FormatType::Heif => Heif::metadata_version(),
            FormatType::Video => Video::metadata_version(),
            _ => Raw::metadata_version(),
        }
    }

    pub fn thumbnail_version(&self) -> (r: i32)
        ensures
            r == format_thumbnail_version(self.spec_format()),
    {
        proof { use_type_invariant(self); }
        match self.format {
            FormatType::Standard => Standard::thumbnail_version(),
            FormatType::Heif => Heif::thumbnail_version(),
            FormatType::Video => Video::thumbnail_version(),
            _ => Raw::thumbnail_version(),
        }
    }
}

/// Why reading a media file failed, by format, with the reader's message.
pub enum MetadataError {
    Standard(String),
    Heif(String),
    Video(String),
    Raw(String),
}

} // verus!
