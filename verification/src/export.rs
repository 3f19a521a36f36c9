use vstd::prelude::*;
use crate::text::{push_all, string_of};
use crate::media_query::display::join_with;
use crate::media_query::values::{
    int_text, bool_text, nat_chars, nat_digits, spec_int_text, spec_bool_text, spec_uuid_text, UuidValue,
};
use crate::models::records::MediaTag;

verus! {

/// The columns of an export that every medium has, before the custom
/// metadata keys.
pub open spec fn fixed_headers() -> Seq<Seq<char>> {
    seq![
        "id"@, "uuid"@, "name"@, "width"@, "height"@, "media_type"@, "duration"@, "hash"@,
        "is_screenshot"@, "longitude"@, "latitude"@, "has_thumbnail"@, "whisper_transcript"@,
        "vision_ocr_result"@, "tags"@, "albums"@,
    ]
}

pub open spec fn string_views(v: Seq<String>) -> Seq<Seq<char>> {
    v.map_values(|s: String| s@)
}

proof fn lemma_views_push(v: Seq<String>, s: String)
    ensures
        string_views(v.push(s)) == string_views(v).push(s@),
{
    assert(string_views(v.push(s)) =~= string_views(v).push(s@));
}

/// The header row of an export: the fixed columns, then one column per
/// custom metadata key; and where the custom columns start.
pub fn export_headers(custom_keys: Vec<String>) -> (r: (Vec<String>, usize))
    ensures
        string_views(r.0@) == fixed_headers() + string_views(custom_keys@),
        r.1 == fixed_headers().len(),
{
    let mut headers: Vec<String> = Vec::new();
    let fixed = [
        "id", "uuid", "name", "width", "height", "media_type", "duration", "hash",
        "is_screenshot", "longitude", "latitude", "has_thumbnail", "whisper_transcript",
        "vision_ocr_result", "tags", "albums",
    ];
    let mut i: usize = 0;
    while i < 16
        invariant
            i <= 16,
            fixed@ == seq![
                "id", "uuid", "name", "width", "height", "media_type", "duration", "hash",
                "is_screenshot", "longitude", "latitude", "has_thumbnail", "whisper_transcript",
                "vision_ocr_result", "tags", "albums",
            ],
            string_views(headers@) == fixed@.take(i as int).map_values(|s: &str| s@),
        decreases 16 - i,
    {
        let mut h = String::new();
        push_all(&mut h, fixed[i]);
        proof { lemma_views_push(headers@, h); }
        headers.push(h);
        assert(fixed@.take(i + 1) == fixed@.take(i as int).push(fixed@[i as int]));
        assert(fixed@.take(i + 1).map_values(|s: &str| s@) =~= fixed@.take(i as int).map_values(|s: &str| s@).push(fixed@[i as int]@));
        i = i + 1;
    }
    assert(fixed@.take(16).map_values(|s: &str| s@) =~= fixed_headers());
    let custom_starts = headers.len();
    let mut k: usize = 0;
    while k < custom_keys.len()
        invariant
            k <= custom_keys@.len(),
            custom_starts == 16,
            string_views(headers@) == fixed_headers() + string_views(custom_keys@.take(k as int)),
        decreases custom_keys.len() - k,
    {
        let key = custom_keys[k].clone();
        proof { lemma_views_push(headers@, key); }
        headers.push(key);
        assert(custom_keys@.take(k + 1) == custom_keys@.take(k as int).push(custom_keys@[k as int]));
        proof { lemma_views_push(custom_keys@.take(k as int), custom_keys@[k as int]); }
        assert(string_views(headers@) =~= fixed_headers() + string_views(custom_keys@.take(k + 1)));
        k = k + 1;
    }
    assert(custom_keys@.take(custom_keys.len() as int) == custom_keys@);
    (headers, custom_starts)
}

/// The strings `xs` joined by `sep`, as `[String]::join` writes them.
pub fn join_strings(xs: &Vec<String>, sep: &str) -> (r: String)
    ensures
        r@ == join_with(string_views(xs@), sep@),
{
    let mut out = String::new();
    let mut i: usize = 0;
    while i < xs.len()
        invariant
            i <= xs@.len(),
            out@ == join_with(string_views(xs@.take(i as int)), sep@),
        decreases xs.len() - i,
    {
        let ghost t = string_views(xs@.take(i + 1));
        assert(t.drop_last() =~= string_views(xs@.take(i as int)));
        assert(t.last() == xs@[i as int]@);
        if i > 0 {
            push_all(&mut out, sep);
        }
        push_all(&mut out, xs[i].as_str());
        proof {
            if i == 0 {
                assert(t.len() == 1);
            }
        }
        i = i + 1;
    }
    assert(xs@.take(xs.len() as int) == xs@);
    out
}

/// What an export writes of a medium; the coordinates, floating point, come
/// written by the caller (empty where there are none).
#[derive(Debug, Clone)]
pub struct ExportMedia {
    pub id: i32,
    pub uuid: UuidValue,
    pub name: String,
    pub width: u32,
    pub height: u32,
    pub media_type: String,
    pub duration: Option<u32>,
    pub hash: String,
    pub is_screenshot: bool,
    pub longitude: String,
    pub latitude: String,
    pub has_thumbnail: bool,
}

pub open spec fn optional_text(o: Option<Seq<char>>) -> Seq<char> {
    match o {
        Some(t) => t,
        None => Seq::empty(),
    }
}

pub open spec fn optional_string(o: Option<String>) -> Seq<char> {
    match o {
        Some(t) => t@,
        None => Seq::empty(),
    }
}

pub open spec fn duration_text(d: Option<u32>) -> Seq<char> {
    match d {
        Some(n) => nat_digits(n as nat),
        None => Seq::empty(),
    }
}

/// The transcript and the recognised text of a medium's extra data, each
/// empty where there is none.
pub open spec fn extra_texts(extra: Option<(Option<String>, Option<String>)>) -> Seq<Seq<char>> {
    match extra {
        Some((w, v)) => seq![optional_string(w), optional_string(v)],
        None => seq![Seq::empty(), Seq::empty()],
    }
}

pub open spec fn tag_names(tags: Seq<MediaTag>) -> Seq<Seq<char>> {
    tags.map_values(|t: MediaTag| t.tag@)
}

/// The fields of a medium in the order of `fixed_headers`.
pub open spec fn media_texts(
    m: ExportMedia,
    extra: Option<(Option<String>, Option<String>)>,
    tags: Seq<MediaTag>,
    albums: Seq<String>,
) -> Seq<Seq<char>> {
    seq![
        spec_int_text(m.id as int), spec_uuid_text(m.uuid.0), m.name@, nat_digits(m.width as nat),
        nat_digits(m.height as nat), m.media_type@, duration_text(m.duration), m.hash@,
        spec_bool_text(m.is_screenshot), m.longitude@, m.latitude@, spec_bool_text(m.has_thumbnail),
    ] + extra_texts(extra) + seq![join_with(tag_names(tags), ","@), join_with(string_views(albums), ","@)]
}

fn u32_text(n: u32) -> (s: String)
    ensures
        s@ == nat_digits(n as nat),
{
    let cs = nat_chars(n as u64);
    string_of(cs.as_slice())
}

fn optional_clone(o: &Option<String>) -> (s: String)
    ensures
        s@ == optional_string(*o),
{
    match o {
        Some(t) => t.clone(),
        None => String::new(),
    }
}

/// The row of a medium in an export: its fields in the order of the fixed
/// headers, its extra data, its tags and albums joined by commas, then the
/// latest value of each custom metadata key of `headers` (`customs`, one per
/// key, empty where the medium has none).
pub fn create_row(
    headers: &(Vec<String>, usize),
    media: &ExportMedia,
    extra: Option<(Option<String>, Option<String>)>,
    tags: &Vec<MediaTag>,
    albums: &Vec<String>,
    customs: &Vec<Option<String>>,
) -> (r: Vec<String>)
    requires
        headers.1 <= headers.0@.len(),
        customs@.len() == headers.0@.len() - headers.1,
    ensures
        string_views(r@) == media_texts(*media, extra, tags@, albums@)
            + customs@.map_values(|c: Option<String>| optional_string(c)),
{
    let mut out: Vec<String> = Vec::new();
    out.push(int_text(media.id));
    out.push(media.uuid.to_text());
    out.push(media.name.clone());
    out.push(u32_text(media.width));
    out.push(u32_text(media.height));
    out.push(media.media_type.clone());
    let duration = match media.duration {
        Some(d) => u32_text(d),
        None => String::new(),
    };
    out.push(duration);
    out.push(media.hash.clone());
    out.push(bool_text(media.is_screenshot));
    out.push(media.longitude.clone());
    out.push(media.latitude.clone());
    out.push(bool_text(media.has_thumbnail));
    match &extra {
        Some((w, v)) => {
            out.push(optional_clone(w));
            out.push(optional_clone(v));
        },
        None => {
            out.push(String::new());
            out.push(String::new());
        },
    }
    let mut names: Vec<String> = Vec::new();
    let mut t: usize = 0;
    while t < tags.len()
        invariant
            t <= tags@.len(),
            string_views(names@) == tag_names(tags@.take(t as int)),
        decreases tags.len() - t,
    {
        let name = tags[t].tag.clone();
        proof { lemma_views_push(names@, name); }
        names.push(name);
        assert(tags@.take(t + 1) == tags@.take(t as int).push(tags@[t as int]));
        assert(tag_names(tags@.take(t + 1)) =~= tag_names(tags@.take(t as int)).push(tags@[t as int].tag@));
        t = t + 1;
    }
    assert(tags@.take(tags.len() as int) == tags@);
    out.push(join_strings(&names, ","));
    out.push(join_strings(albums, ","));
    assert(string_views(out@) =~= media_texts(*media, extra, tags@, albums@));
    let ghost fixed = string_views(out@);
    let mut c: usize = 0;
    while c < customs.len()
        invariant
            c <= customs@.len(),
            string_views(out@) == fixed + customs@.take(c as int).map_values(|o: Option<String>| optional_string(o)),
        decreases customs.len() - c,
    {
        let v = optional_clone(&customs[c]);
        proof { lemma_views_push(out@, v); }
        out.push(v);
        assert(customs@.take(c + 1) == customs@.take(c as int).push(customs@[c as int]));
        assert(customs@.take(c + 1).map_values(|o: Option<String>| optional_string(o))
            =~= customs@.take(c as int).map_values(|o: Option<String>| optional_string(o)).push(optional_string(customs@[c as int])));
        c = c + 1;
    }
    assert(customs@.take(customs.len() as int) == customs@);
    out
}

/// What an export writes of a medium under the column called `name`.
pub open spec fn column_value(
    name: Seq<char>,
    m: ExportMedia,
    extra: Option<(Option<String>, Option<String>)>,
    tags: Seq<MediaTag>,
    albums: Seq<String>,
) -> Seq<char> {
    if name == "id"@ { spec_int_text(m.id as int) }
    else if name == "uuid"@ { spec_uuid_text(m.uuid.0) }
    else if name == "name"@ { m.name@ }
    else if name == "width"@ { nat_digits(m.width as nat) }
    else if name == "height"@ { nat_digits(m.height as nat) }
    else if name == "media_type"@ { m.media_type@ }
    else if name == "duration"@ { duration_text(m.duration) }
    else if name == "hash"@ { m.hash@ }
    else if name == "is_screenshot"@ { spec_bool_text(m.is_screenshot) }
    else if name == "longitude"@ { m.longitude@ }
    else if name == "latitude"@ { m.latitude@ }
    else if name == "has_thumbnail"@ { spec_bool_text(m.has_thumbnail) }
    else if name == "whisper_transcript"@ {
        match extra { Some((w, _)) => optional_string(w), None => Seq::empty() }
    } else if name == "vision_ocr_result"@ {
        match extra { Some((_, v)) => optional_string(v), None => Seq::empty() }
    } else if name == "tags"@ { join_with(tag_names(tags), ","@) }
    else if name == "albums"@ { join_with(string_views(albums), ","@) }
    else { Seq::empty() }
}

/// The sixteen fixed headers are different names.
proof fn lemma_fixed_headers_distinct()
    ensures
        forall|i: int, j: int| 0 <= j < i < 16 ==> #[trigger] fixed_headers()[i] != #[trigger] fixed_headers()[j],
{
    reveal_strlit("id");
    reveal_strlit("uuid");
    reveal_strlit("name");
    reveal_strlit("width");
    reveal_strlit("height");
    reveal_strlit("media_type");
    reveal_strlit("duration");
    reveal_strlit("hash");
    reveal_strlit("is_screenshot");
    reveal_strlit("longitude");
    reveal_strlit("latitude");
    reveal_strlit("has_thumbnail");
    reveal_strlit("whisper_transcript");
    reveal_strlit("vision_ocr_result");
    reveal_strlit("tags");
    reveal_strlit("albums");
    assert("uuid"@.len() != "id"@.len());
    assert("name"@.len() != "id"@.len());
    assert("name"@[0] != "uuid"@[0]);
    assert("width"@.len() != "id"@.len());
    assert("width"@.len() != "uuid"@.len());
    assert("width"@.len() != "name"@.len());
    assert("height"@.len() != "id"@.len());
    assert("height"@.len() != "uuid"@.len());
    assert("height"@.len() != "name"@.len());
    assert("height"@.len() != "width"@.len());
    assert("media_type"@.len() != "id"@.len());
    assert("media_type"@.len() != "uuid"@.len());
    assert("media_type"@.len() != "name"@.len());
    assert("media_type"@.len() != "width"@.len());
    assert("media_type"@.len() != "height"@.len());
    assert("duration"@.len() != "id"@.len());
    assert("duration"@.len() != "uuid"@.len());
    assert("duration"@.len() != "name"@.len());
    assert("duration"@.len() != "width"@.len());
    assert("duration"@.len() != "height"@.len());
    assert("duration"@.len() != "media_type"@.len());
    assert("hash"@.len() != "id"@.len());
    assert("hash"@[0] != "uuid"@[0]);
    assert("hash"@[0] != "name"@[0]);
    assert("hash"@.len() != "width"@.len());
    assert("hash"@.len() != "height"@.len());
    assert("hash"@.len() != "media_type"@.len());
    assert("hash"@.len() != "duration"@.len());
    assert("is_screenshot"@.len() != "id"@.len());
    assert("is_screenshot"@.len() != "uuid"@.len());
    assert("is_screenshot"@.len() != "name"@.len());
    assert("is_screenshot"@.len() != "width"@.len());
    assert("is_screenshot"@.len() != "height"@.len());
    assert("is_screenshot"@.len() != "media_type"@.len());
    assert("is_screenshot"@.len() != "duration"@.len());
    assert("is_screenshot"@.len() != "hash"@.len());
    assert("longitude"@.len() != "id"@.len());
    assert("longitude"@.len() != "uuid"@.len());
    assert("longitude"@.len() != "name"@.len());
    assert("longitude"@.len() != "width"@.len());
    assert("longitude"@.len() != "height"@.len());
    assert("longitude"@.len() != "media_type"@.len());
    assert("longitude"@.len() != "duration"@.len());
    assert("longitude"@.len() != "hash"@.len());
    assert("longitude"@.len() != "is_screenshot"@.len());
    assert("latitude"@.len() != "id"@.len());
    assert("latitude"@.len() != "uuid"@.len());
    assert("latitude"@.len() != "name"@.len());
    assert("latitude"@.len() != "width"@.len());
    assert("latitude"@.len() != "height"@.len());
    assert("latitude"@.len() != "media_type"@.len());
    assert("latitude"@[0] != "duration"@[0]);
    assert("latitude"@.len() != "hash"@.len());
    assert("latitude"@.len() != "is_screenshot"@.len());
    assert("latitude"@.len() != "longitude"@.len());
    assert("has_thumbnail"@.len() != "id"@.len());
    assert("has_thumbnail"@.len() != "uuid"@.len());
    assert("has_thumbnail"@.len() != "name"@.len());
    assert("has_thumbnail"@.len() != "width"@.len());
    assert("has_thumbnail"@.len() != "height"@.len());
    assert("has_thumbnail"@.len() != "media_type"@.len());
    assert("has_thumbnail"@.len() != "duration"@.len());
    assert("has_thumbnail"@.len() != "hash"@.len());
    assert("has_thumbnail"@[0] != "is_screenshot"@[0]);
    assert("has_thumbnail"@.len() != "longitude"@.len());
    assert("has_thumbnail"@.len() != "latitude"@.len());
    assert("whisper_transcript"@.len() != "id"@.len());
    assert("whisper_transcript"@.len() != "uuid"@.len());
    assert("whisper_transcript"@.len() != "name"@.len());
    assert("whisper_transcript"@.len() != "width"@.len());
    assert("whisper_transcript"@.len() != "height"@.len());
    assert("whisper_transcript"@.len() != "media_type"@.len());
    assert("whisper_transcript"@.len() != "duration"@.len());
    assert("whisper_transcript"@.len() != "hash"@.len());
    assert("whisper_transcript"@.len() != "is_screenshot"@.len());
    assert("whisper_transcript"@.len() != "longitude"@.len());
    assert("whisper_transcript"@.len() != "latitude"@.len());
    assert("whisper_transcript"@.len() != "has_thumbnail"@.len());
    assert("vision_ocr_result"@.len() != "id"@.len());
    assert("vision_ocr_result"@.len() != "uuid"@.len());
    assert("vision_ocr_result"@.len() != "name"@.len());
    assert("vision_ocr_result"@.len() != "width"@.len());
    assert("vision_ocr_result"@.len() != "height"@.len());
    assert("vision_ocr_result"@.len() != "media_type"@.len());
    assert("vision_ocr_result"@.len() != "duration"@.len());
    assert("vision_ocr_result"@.len() != "hash"@.len());
    assert("vision_ocr_result"@.len() != "is_screenshot"@.len());
    assert("vision_ocr_result"@.len() != "longitude"@.len());
    assert("vision_ocr_result"@.len() != "latitude"@.len());
    assert("vision_ocr_result"@.len() != "has_thumbnail"@.len());
    assert("vision_ocr_result"@.len() != "whisper_transcript"@.len());
    assert("tags"@.len() != "id"@.len());
    assert("tags"@[0] != "uuid"@[0]);
    assert("tags"@[0] != "name"@[0]);
    assert("tags"@.len() != "width"@.len());
    assert("tags"@.len() != "height"@.len());
    assert("tags"@.len() != "media_type"@.len());
    assert("tags"@.len() != "duration"@.len());
    assert("tags"@[0] != "hash"@[0]);
    assert("tags"@.len() != "is_screenshot"@.len());
    assert("tags"@.len() != "longitude"@.len());
    assert("tags"@.len() != "latitude"@.len());
    assert("tags"@.len() != "has_thumbnail"@.len());
    assert("tags"@.len() != "whisper_transcript"@.len());
    assert("tags"@.len() != "vision_ocr_result"@.len());
    assert("albums"@.len() != "id"@.len());
    assert("albums"@.len() != "uuid"@.len());
    assert("albums"@.len() != "name"@.len());
    assert("albums"@.len() != "width"@.len());
    assert("albums"@[0] != "height"@[0]);
    assert("albums"@.len() != "media_type"@.len());
    assert("albums"@.len() != "duration"@.len());
    assert("albums"@.len() != "hash"@.len());
    assert("albums"@.len() != "is_screenshot"@.len());
    assert("albums"@.len() != "longitude"@.len());
    assert("albums"@.len() != "latitude"@.len());
    assert("albums"@.len() != "has_thumbnail"@.len());
    assert("albums"@.len() != "whisper_transcript"@.len());
    assert("albums"@.len() != "vision_ocr_result"@.len());
    assert("albums"@.len() != "tags"@.len());
}

/// Each fixed header names what the row has in its column: for every one of
/// the sixteen fixed columns, the row of any medium holds there the field
/// that the header names (the longitude under `longitude`, the latitude
/// under `latitude`, and so on).
pub proof fn lemma_headers_name_their_columns(
    m: ExportMedia,
    extra: Option<(Option<String>, Option<String>)>,
    tags: Seq<MediaTag>,
    albums: Seq<String>,
)
    ensures
        fixed_headers().len() == 16,
        media_texts(m, extra, tags, albums).len() == 16,
        forall|i: int| 0 <= i < 16 ==> #[trigger] media_texts(m, extra, tags, albums)[i]
            == column_value(fixed_headers()[i], m, extra, tags, albums),
{
    lemma_fixed_headers_distinct();
    let t = media_texts(m, extra, tags, albums);
    let h = fixed_headers();
    assert(t.len() == 16);
    assert(t[0] == column_value(h[0], m, extra, tags, albums));
    assert(t[1] == column_value(h[1], m, extra, tags, albums));
    assert(t[2] == column_value(h[2], m, extra, tags, albums));
    assert(t[3] == column_value(h[3], m, extra, tags, albums));
    assert(t[4] == column_value(h[4], m, extra, tags, albums));
    assert(t[5] == column_value(h[5], m, extra, tags, albums));
    assert(t[6] == column_value(h[6], m, extra, tags, albums));
    assert(t[7] == column_value(h[7], m, extra, tags, albums));
    assert(t[8] == column_value(h[8], m, extra, tags, albums));
    assert(t[9] == column_value(h[9], m, extra, tags, albums));
    assert(t[10] == column_value(h[10], m, extra, tags, albums));
    assert(t[11] == column_value(h[11], m, extra, tags, albums));
    assert(t[12] == column_value(h[12], m, extra, tags, albums));
    assert(t[13] == column_value(h[13], m, extra, tags, albums));
    assert(t[14] == column_value(h[14], m, extra, tags, albums));
    assert(t[15] == column_value(h[15], m, extra, tags, albums));
}

} // verus!
