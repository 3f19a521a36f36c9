use vstd::prelude::*;

verus! {

/// The kinds of media files.
#[derive(Debug, Copy, Clone, PartialEq, Eq, Structural)]
pub enum FormatType {
    Standard,
    Heif,
    Video,
    Raw,
    NonThumb,
    Unknown,
}

/// The formats that have a reader (`Standard`, `Heif`, `Video`, `Raw`), all
/// of which can make thumbnails.
pub open spec fn is_media_format(f: FormatType) -> bool {
    f == FormatType::Standard || f == FormatType::Heif || f == FormatType::Video || f == FormatType::Raw
}

pub open spec fn spec_all_formats() -> Seq<FormatType> {
    seq![FormatType::Standard, FormatType::Heif, FormatType::Video, FormatType::Raw]
}

pub open spec fn spec_thumbnailable_formats() -> Seq<FormatType> {
    seq![FormatType::Standard, FormatType::Heif, FormatType::Video, FormatType::Raw]
}

impl FormatType {
    /// The formats that have a reader.
    pub fn all() -> (r: Vec<FormatType>)
        ensures
            r@ == spec_all_formats(),
    {
        let r = vec![FormatType::Standard, FormatType::Heif, FormatType::Video, FormatType::Raw];
        assert(r@ == spec_all_formats());
        r
    }

    /// The formats that can make thumbnails.
    pub fn thumbnailable() -> (r: Vec<FormatType>)
        ensures
            r@ == spec_thumbnailable_formats(),
    {
        let r = vec![FormatType::Standard, FormatType::Heif, FormatType::Video, FormatType::Raw];
        assert(r@ == spec_thumbnailable_formats());
        r
    }
}

/// Whether every format of the list has a reader that makes thumbnails.
pub fn thumbnailabele_rc(thumbs: &[FormatType]) -> (r: bool)
    ensures
        r == forall|i: int| 0 <= i < thumbs@.len() ==> is_media_format(#[trigger] thumbs@[i]),
{
    let mut i: usize = 0;
    while i < thumbs.len()
        invariant
            i <= thumbs@.len(),
            forall|j: int| 0 <= j < i ==> is_media_format(#[trigger] thumbs@[j]),
        decreases thumbs.len() - i,
    {
        let f = thumbs[i];
        if !(f == FormatType::Standard || f == FormatType::Heif || f == FormatType::Video || f == FormatType::Raw) {
            return false;
        }
        i = i + 1;
    }
    true
}

/// The formats listed as thumbnailable all have a reader that makes
/// thumbnails.
pub fn thumbnailable_check() -> (r: bool)
    ensures
        r,
        r == forall|i: int| 0 <= i < spec_thumbnailable_formats().len()
            ==> is_media_format(#[trigger] spec_thumbnailable_formats()[i]),
{
    let thumbnailable = FormatType::thumbnailable();
    thumbnailabele_rc(thumbnailable.as_slice())
}

} // verus!
