use vstd::prelude::*;
use crate::text::{chars_of, string_of, concat, sub_chars, find_char, first_index_of};
use crate::media_query::macros::{parse_filter, spec_parse_filter, filter_input_supported, views};
use crate::media_query::dsl::{
    DSLType, DSLBool, DSLInteger, DSLFloat, DSLString, DSLDate, DSLUuid, FloatValue,
    spec_parse_bool_value, spec_parse_integer_value, spec_parse_float_value, spec_parse_date_value,
    spec_parse_uuid_value,
};
use crate::media_query::values::{DateValue, UuidValue, eq_chars};
use crate::media_query::validation::{
    ErrorView, spec_validate, validate_filters, is_paging, is_valid_query,
    lemma_validate_accepts_exactly_valid_queries,
};
pub use crate::media_query::validation::MediaQueryError;
use crate::media_query::sqlize::{
    push_tables, push_filters, join_pieces, distinct_tables, needed_tables, query_pieces,
    offset_in_range, offset_fits_in,
};
use crate::sql::{SqlQuery, PieceView, sql_text};
use crate::media_query::display::{filters_text, query_text};
use crate::text::{contains_seq, contains_str};

verus! {

/// The tables that a filter needs joined to `media`.
#[derive(PartialEq, Debug, Hash, Eq, Clone, Copy, Structural)]
pub enum JoinableTable {
    MediaExtra,
    AlbumAll,
    MediaTag,
    CustomMetadata,
}

impl JoinableTable {
    pub open spec fn spec_join_statement(&self) -> Seq<char> {
        match self {
            JoinableTable::MediaExtra => " LEFT JOIN media_extra ON media.id = media_extra.media_id "@,
            JoinableTable::AlbumAll => " LEFT JOIN album_media ON media.id = album_media.media_id INNER JOIN album ON album_media.album_id = album.id "@,
            JoinableTable::MediaTag => " LEFT JOIN media_tag ON media.id = media_tag.media_id "@,
            JoinableTable::CustomMetadata => " LEFT JOIN custom_metadata ON media.id = custom_metadata.media_id "@,
        }
    }

    /// The SQL that joins the table to `media`.
    pub fn join_statement(&self) -> (r: &'static str)
        ensures
            r@ == self.spec_join_statement(),
    {
        match self {
            JoinableTable::MediaExtra => " LEFT JOIN media_extra ON media.id = media_extra.media_id ",
            JoinableTable::AlbumAll => " LEFT JOIN album_media ON media.id = album_media.media_id INNER JOIN album ON album_media.album_id = album.id ",
            JoinableTable::MediaTag => " LEFT JOIN media_tag ON media.id = media_tag.media_id ",
            JoinableTable::CustomMetadata => " LEFT JOIN custom_metadata ON media.id = custom_metadata.media_id ",
        }
    }
}

/// The value types of the filter language.
#[derive(PartialEq, Debug, Eq, Clone, Copy, Structural)]
pub enum DslKind {
    Bool,
    Integer,
    Float,
    String,
    Date,
    Uuid,
}

impl DslKind {
    /// The name of the value type in the filter language's description.
    pub open spec fn spec_name(&self) -> Seq<char> {
        match self {
            DslKind::Bool => "bool"@,
            DslKind::Integer => "integer"@,
            DslKind::Float => "float"@,
            DslKind::String => "string"@,
            DslKind::Date => "date"@,
            DslKind::Uuid => "uuid"@,
        }
    }

    pub fn name(&self) -> (r: &'static str)
        ensures
            r@ == self.spec_name(),
    {
        match self {
            DslKind::Bool => "bool",
            DslKind::Integer => "integer",
            DslKind::Float => "float",
            DslKind::String => "string",
            DslKind::Date => "date",
            DslKind::Uuid => "uuid",
        }
    }
}

/// The fields that a media query can filter on, in their order of declaration.
#[derive(PartialEq, Debug, Eq, Clone, Copy, Structural)]
pub enum Field {
    OrderBy,
    Asc,
    Limit,
    Page,
    Path,
    CreatedAt,
    IsScreenshot,
    MediaType,
    HasGps,
    ImportId,
    Longitude,
    Latitude,
    Transcript,
    VisionOcr,
    FullSearch,
    AlbumUuid,
    Tag,
    HasThumbnail,
}

impl Field {
    pub open spec fn spec_name(&self) -> Seq<char> {
        match self {
            Field::OrderBy => "order_by"@,
            Field::Asc => "asc"@,
            Field::Limit => "limit"@,
            Field::Page => "page"@,
            Field::Path => "path"@,
            Field::CreatedAt => "created_at"@,
            Field::IsScreenshot => "is_screenshot"@,
            Field::MediaType => "media_type"@,
            Field::HasGps => "has_gps"@,
            Field::ImportId => "import_id"@,
            Field::Longitude => "longitude"@,
            Field::Latitude => "latitude"@,
            Field::Transcript => "transcript"@,
            Field::VisionOcr => "vision_ocr"@,
            Field::FullSearch => "full_search"@,
            Field::AlbumUuid => "album_uuid"@,
            Field::Tag => "tag"@,
            Field::HasThumbnail => "has_thumbnail"@,
        }
    }

    pub open spec fn spec_kind(&self) -> DslKind {
        match self {
            Field::OrderBy => DslKind::String,
            Field::Asc => DslKind::Bool,
            Field::Limit => DslKind::Integer,
            Field::Page => DslKind::Integer,
            Field::Path => DslKind::String,
            Field::CreatedAt => DslKind::Date,
            Field::IsScreenshot => DslKind::Bool,
            Field::MediaType => DslKind::String,
            Field::HasGps => DslKind::Bool,
            Field::ImportId => DslKind::Integer,
            Field::Longitude => DslKind::Float,
            Field::Latitude => DslKind::Float,
            Field::Transcript => DslKind::String,
            Field::VisionOcr => DslKind::String,
            Field::FullSearch => DslKind::String,
            Field::AlbumUuid => DslKind::Uuid,
            Field::Tag => DslKind::String,
            Field::HasThumbnail => DslKind::Bool,
        }
    }

    /// The tables that a filter on the field needs.
    pub open spec fn spec_tables(&self) -> Seq<JoinableTable> {
        match self {
            Field::Transcript => seq![JoinableTable::MediaExtra],
            Field::VisionOcr => seq![JoinableTable::MediaExtra],
            Field::FullSearch => seq![JoinableTable::MediaExtra, JoinableTable::CustomMetadata],
            Field::AlbumUuid => seq![JoinableTable::AlbumAll],
            Field::Tag => seq![JoinableTable::MediaTag],
            _ => Seq::empty(),
        }
    }

    /// The field named `key`, if any; `filter_path` is another name of the
    /// `path` field.
    pub open spec fn spec_from_name(key: Seq<char>) -> Option<Field> {
        if key == "order_by"@ { Some(Field::OrderBy) }
        else if key == "asc"@ { Some(Field::Asc) }
        else if key == "limit"@ { Some(Field::Limit) }
        else if key == "page"@ { Some(Field::Page) }
        else if key == "path"@ { Some(Field::Path) }
        else if key == "filter_path"@ { Some(Field::Path) }
        else if key == "created_at"@ { Some(Field::CreatedAt) }
        else if key == "is_screenshot"@ { Some(Field::IsScreenshot) }
        else if key == "media_type"@ { Some(Field::MediaType) }
        else if key == "has_gps"@ { Some(Field::HasGps) }
        else if key == "import_id"@ { Some(Field::ImportId) }
        else if key == "longitude"@ { Some(Field::Longitude) }
        else if key == "latitude"@ { Some(Field::Latitude) }
        else if key == "transcript"@ { Some(Field::Transcript) }
        else if key == "vision_ocr"@ { Some(Field::VisionOcr) }
        else if key == "full_search"@ { Some(Field::FullSearch) }
        else if key == "album_uuid"@ { Some(Field::AlbumUuid) }
        else if key == "tag"@ { Some(Field::Tag) }
        else if key == "has_thumbnail"@ { Some(Field::HasThumbnail) }
        else { None }
    }

    pub fn name(&self) -> (r: &'static str)
        ensures
            r@ == self.spec_name(),
    {
        match self {
            Field::OrderBy => "order_by",
            Field::Asc => "asc",
            Field::Limit => "limit",
            Field::Page => "page",
            Field::Path => "path",
            Field::CreatedAt => "created_at",
            Field::IsScreenshot => "is_screenshot",
            Field::MediaType => "media_type",
            Field::HasGps => "has_gps",
            Field::ImportId => "import_id",
            Field::Longitude => "longitude",
            Field::Latitude => "latitude",
            Field::Transcript => "transcript",
            Field::VisionOcr => "vision_ocr",
            Field::FullSearch => "full_search",
            Field::AlbumUuid => "album_uuid",
            Field::Tag => "tag",
            Field::HasThumbnail => "has_thumbnail",
        }
    }

    pub fn kind(&self) -> (r: DslKind)
        ensures
            r == self.spec_kind(),
    {
        match self {
            Field::OrderBy => DslKind::String,
            Field::Asc => DslKind::Bool,
            Field::Limit => DslKind::Integer,
            Field::Page => DslKind::Integer,
            Field::Path => DslKind::String,
            Field::CreatedAt => DslKind::Date,
            Field::IsScreenshot => DslKind::Bool,
            Field::MediaType => DslKind::String,
            Field::HasGps => DslKind::Bool,
            Field::ImportId => DslKind::Integer,
            Field::Longitude => DslKind::Float,
            Field::Latitude => DslKind::Float,
            Field::Transcript => DslKind::String,
            Field::VisionOcr => DslKind::String,
            Field::FullSearch => DslKind::String,
            Field::AlbumUuid => DslKind::Uuid,
            Field::Tag => DslKind::String,
            Field::HasThumbnail => DslKind::Bool,
        }
    }

    pub fn tables(&self) -> (r: Vec<JoinableTable>)
        ensures
            r@ == self.spec_tables(),
    {
        let r = match self {
            Field::Transcript => vec![JoinableTable::MediaExtra],
            Field::VisionOcr => vec![JoinableTable::MediaExtra],
            Field::FullSearch => vec![JoinableTable::MediaExtra, JoinableTable::CustomMetadata],
            Field::AlbumUuid => vec![JoinableTable::AlbumAll],
            Field::Tag => vec![JoinableTable::MediaTag],
            _ => Vec::new(),
        };
        assert(r@ == self.spec_tables());
        r
    }

    /// The field named `key`, if any.
    pub fn from_name(key: &[char]) -> (r: Option<Field>)
        ensures
            r == Field::spec_from_name(key@),
    {
        if eq_chars(key, "order_by") { Some(Field::OrderBy) }
        else if eq_chars(key, "asc") { Some(Field::Asc) }
        else if eq_chars(key, "limit") { Some(Field::Limit) }
        else if eq_chars(key, "page") { Some(Field::Page) }
        else if eq_chars(key, "path") { Some(Field::Path) }
        else if eq_chars(key, "filter_path") { Some(Field::Path) }
        else if eq_chars(key, "created_at") { Some(Field::CreatedAt) }
        else if eq_chars(key, "is_screenshot") { Some(Field::IsScreenshot) }
        else if eq_chars(key, "media_type") { Some(Field::MediaType) }
        else if eq_chars(key, "has_gps") { Some(Field::HasGps) }
        else if eq_chars(key, "import_id") { Some(Field::ImportId) }
        else if eq_chars(key, "longitude") { Some(Field::Longitude) }
        else if eq_chars(key, "latitude") { Some(Field::Latitude) }
        else if eq_chars(key, "transcript") { Some(Field::Transcript) }
        else if eq_chars(key, "vision_ocr") { Some(Field::VisionOcr) }
        else if eq_chars(key, "full_search") { Some(Field::FullSearch) }
        else if eq_chars(key, "album_uuid") { Some(Field::AlbumUuid) }
        else if eq_chars(key, "tag") { Some(Field::Tag) }
        else if eq_chars(key, "has_thumbnail") { Some(Field::HasThumbnail) }
        else { None }
    }
}

/// An operator of one of the value types.
#[derive(PartialEq, Debug, Eq, Clone, Copy, Structural)]
pub enum DslOp {
    Bool(DSLBool),
    Integer(DSLInteger),
    Float(DSLFloat),
    Str(DSLString),
    Date(DSLDate),
    Uuid(DSLUuid),
}

impl DslOp {
    pub open spec fn spec_kind(&self) -> DslKind {
        match self {
            DslOp::Bool(_) => DslKind::Bool,
            DslOp::Integer(_) => DslKind::Integer,
            DslOp::Float(_) => DslKind::Float,
            DslOp::Str(_) => DslKind::String,
            DslOp::Date(_) => DslKind::Date,
            DslOp::Uuid(_) => DslKind::Uuid,
        }
    }

    /// The spelling of the operator in the filter language.
    pub open spec fn spec_text(&self) -> Seq<char> {
        match self {
            DslOp::Bool(o) => o.spec_to_str(),
            DslOp::Integer(o) => o.spec_to_str(),
            DslOp::Float(o) => o.spec_to_str(),
            DslOp::Str(o) => o.spec_to_str(),
            DslOp::Date(o) => o.spec_to_str(),
            DslOp::Uuid(o) => o.spec_to_str(),
        }
    }

    pub fn to_str(&self) -> (r: &'static str)
        ensures
            r@ == self.spec_text(),
    {
        match self {
            DslOp::Bool(o) => o.to_str(),
            DslOp::Integer(o) => o.to_str(),
            DslOp::Float(o) => o.to_str(),
            DslOp::Str(o) => o.to_str(),
            DslOp::Date(o) => o.to_str(),
            DslOp::Uuid(o) => o.to_str(),
        }
    }
}

/// The value of a filter, as the contracts see it.
pub enum ValueView {
    Bool(bool),
    Integer(i32),
    Float(Seq<char>),
    Str(Seq<char>),
    Date(DateValue),
    Uuid(UuidValue),
}

impl ValueView {
    pub open spec fn kind(&self) -> DslKind {
        match self {
            ValueView::Bool(_) => DslKind::Bool,
            ValueView::Integer(_) => DslKind::Integer,
            ValueView::Float(_) => DslKind::Float,
            ValueView::Str(_) => DslKind::String,
            ValueView::Date(_) => DslKind::Date,
            ValueView::Uuid(_) => DslKind::Uuid,
        }
    }
}

/// A filter as the contracts see it: the field, the operator and the value.
pub struct FilterView {
    pub field: Field,
    pub op: DslOp,
    pub value: ValueView,
}

/// A value of one of the value types.
#[derive(Debug, Clone, PartialEq)]
pub enum DslValue {
    Bool(bool),
    Integer(i32),
    Float(FloatValue),
    Str(String),
    Date(DateValue),
    Uuid(UuidValue),
}

impl View for DslValue {
    type V = ValueView;

    open spec fn view(&self) -> ValueView {
        match self {
            DslValue::Bool(b) => ValueView::Bool(*b),
            DslValue::Integer(i) => ValueView::Integer(*i),
            DslValue::Float(f) => ValueView::Float(f@),
            DslValue::Str(s) => ValueView::Str(s@),
            DslValue::Date(d) => ValueView::Date(*d),
            DslValue::Uuid(u) => ValueView::Uuid(*u),
        }
    }
}

/// One filter of a media query: an operator and a value for one field.
#[derive(PartialEq, Clone, Debug)]
pub enum MediaQueryType {
    OrderBy(DSLString, String),
    Asc(DSLBool, bool),
    Limit(DSLInteger, i32),
    Page(DSLInteger, i32),
    Path(DSLString, String),
    CreatedAt(DSLDate, DateValue),
    IsScreenshot(DSLBool, bool),
    MediaType(DSLString, String),
    HasGps(DSLBool, bool),
    ImportId(DSLInteger, i32),
    Longitude(DSLFloat, FloatValue),
    Latitude(DSLFloat, FloatValue),
    Transcript(DSLString, String),
    VisionOcr(DSLString, String),
    FullSearch(DSLString, String),
    AlbumUuid(DSLUuid, UuidValue),
    Tag(DSLString, String),
    HasThumbnail(DSLBool, bool),
}

impl View for MediaQueryType {
    type V = FilterView;

    open spec fn view(&self) -> FilterView {
        match self {
            MediaQueryType::OrderBy(o, v) => FilterView { field: Field::OrderBy, op: DslOp::Str(*o), value: ValueView::Str(v@) },
            MediaQueryType::Asc(o, v) => FilterView { field: Field::Asc, op: DslOp::Bool(*o), value: ValueView::Bool(*v) },
            MediaQueryType::Limit(o, v) => FilterView { field: Field::Limit, op: DslOp::Integer(*o), value: ValueView::Integer(*v) },
            MediaQueryType::Page(o, v) => FilterView { field: Field::Page, op: DslOp::Integer(*o), value: ValueView::Integer(*v) },
            MediaQueryType::Path(o, v) => FilterView { field: Field::Path, op: DslOp::Str(*o), value: ValueView::Str(v@) },
            MediaQueryType::CreatedAt(o, v) => FilterView { field: Field::CreatedAt, op: DslOp::Date(*o), value: ValueView::Date(*v) },
            MediaQueryType::IsScreenshot(o, v) => FilterView { field: Field::IsScreenshot, op: DslOp::Bool(*o), value: ValueView::Bool(*v) },
            MediaQueryType::MediaType(o, v) => FilterView { field: Field::MediaType, op: DslOp::Str(*o), value: ValueView::Str(v@) },
            MediaQueryType::HasGps(o, v) => FilterView { field: Field::HasGps, op: DslOp::Bool(*o), value: ValueView::Bool(*v) },
            MediaQueryType::ImportId(o, v) => FilterView { field: Field::ImportId, op: DslOp::Integer(*o), value: ValueView::Integer(*v) },
            MediaQueryType::Longitude(o, v) => FilterView { field: Field::Longitude, op: DslOp::Float(*o), value: ValueView::Float(v@) },
            MediaQueryType::Latitude(o, v) => FilterView { field: Field::Latitude, op: DslOp::Float(*o), value: ValueView::Float(v@) },
            MediaQueryType::Transcript(o, v) => FilterView { field: Field::Transcript, op: DslOp::Str(*o), value: ValueView::Str(v@) },
            MediaQueryType::VisionOcr(o, v) => FilterView { field: Field::VisionOcr, op: DslOp::Str(*o), value: ValueView::Str(v@) },
            MediaQueryType::FullSearch(o, v) => FilterView { field: Field::FullSearch, op: DslOp::Str(*o), value: ValueView::Str(v@) },
            MediaQueryType::AlbumUuid(o, v) => FilterView { field: Field::AlbumUuid, op: DslOp::Uuid(*o), value: ValueView::Uuid(*v) },
            MediaQueryType::Tag(o, v) => FilterView { field: Field::Tag, op: DslOp::Str(*o), value: ValueView::Str(v@) },
            MediaQueryType::HasThumbnail(o, v) => FilterView { field: Field::HasThumbnail, op: DslOp::Bool(*o), value: ValueView::Bool(*v) },
        }
    }
}

/// The views of a sequence of filters.
pub open spec fn filter_views(fs: Seq<MediaQueryType>) -> Seq<FilterView> {
    fs.map_values(|f: MediaQueryType| f@)
}

/// A filter view whose operator and value have the type of its field.
pub open spec fn well_kinded(f: FilterView) -> bool {
    f.op.spec_kind() == f.field.spec_kind() && f.value.kind() == f.field.spec_kind()
}

impl MediaQueryType {
    /// The filter for a field, from an operator and a value of the field's type.
    pub fn from_parts(field: Field, op: DslOp, value: DslValue) -> (r: MediaQueryType)
        requires
            op.spec_kind() == field.spec_kind(),
            value@.kind() == field.spec_kind(),
        ensures
            r@ == (FilterView { field, op, value: value@ }),
    {
        match (field, op, value) {
            (Field::OrderBy, DslOp::Str(o), DslValue::Str(v)) => MediaQueryType::OrderBy(o, v),
            (Field::Asc, DslOp::Bool(o), DslValue::Bool(v)) => MediaQueryType::Asc(o, v),
            (Field::Limit, DslOp::Integer(o), DslValue::Integer(v)) => MediaQueryType::Limit(o, v),
            (Field::Page, DslOp::Integer(o), DslValue::Integer(v)) => MediaQueryType::Page(o, v),
            (Field::Path, DslOp::Str(o), DslValue::Str(v)) => MediaQueryType::Path(o, v),
            (Field::CreatedAt, DslOp::Date(o), DslValue::Date(v)) => MediaQueryType::CreatedAt(o, v),
            (Field::IsScreenshot, DslOp::Bool(o), DslValue::Bool(v)) => MediaQueryType::IsScreenshot(o, v),
            (Field::MediaType, DslOp::Str(o), DslValue::Str(v)) => MediaQueryType::MediaType(o, v),
            (Field::HasGps, DslOp::Bool(o), DslValue::Bool(v)) => MediaQueryType::HasGps(o, v),
            (Field::ImportId, DslOp::Integer(o), DslValue::Integer(v)) => MediaQueryType::ImportId(o, v),
            (Field::Longitude, DslOp::Float(o), DslValue::Float(v)) => MediaQueryType::Longitude(o, v),
            (Field::Latitude, DslOp::Float(o), DslValue::Float(v)) => MediaQueryType::Latitude(o, v),
            (Field::Transcript, DslOp::Str(o), DslValue::Str(v)) => MediaQueryType::Transcript(o, v),
            (Field::VisionOcr, DslOp::Str(o), DslValue::Str(v)) => MediaQueryType::VisionOcr(o, v),
            (Field::FullSearch, DslOp::Str(o), DslValue::Str(v)) => MediaQueryType::FullSearch(o, v),
            (Field::AlbumUuid, DslOp::Uuid(o), DslValue::Uuid(v)) => MediaQueryType::AlbumUuid(o, v),
            (Field::Tag, DslOp::Str(o), DslValue::Str(v)) => MediaQueryType::Tag(o, v),
            (Field::HasThumbnail, DslOp::Bool(o), DslValue::Bool(v)) => MediaQueryType::HasThumbnail(o, v),
            _ => {
                // the operator and the value have the field's type
                proof { assert(false); }
                MediaQueryType::HasThumbnail(DSLBool::Equal, false)
            },
        }
    }

    /// The field of the filter.
    pub fn field(&self) -> (r: Field)
        ensures
            r == self@.field,
    {
        match self {
            MediaQueryType::OrderBy(..) => Field::OrderBy,
            MediaQueryType::Asc(..) => Field::Asc,
            MediaQueryType::Limit(..) => Field::Limit,
            MediaQueryType::Page(..) => Field::Page,
            MediaQueryType::Path(..) => Field::Path,
            MediaQueryType::CreatedAt(..) => Field::CreatedAt,
            MediaQueryType::IsScreenshot(..) => Field::IsScreenshot,
            MediaQueryType::MediaType(..) => Field::MediaType,
            MediaQueryType::HasGps(..) => Field::HasGps,
            MediaQueryType::ImportId(..) => Field::ImportId,
            MediaQueryType::Longitude(..) => Field::Longitude,
            MediaQueryType::Latitude(..) => Field::Latitude,
            MediaQueryType::Transcript(..) => Field::Transcript,
            MediaQueryType::VisionOcr(..) => Field::VisionOcr,
            MediaQueryType::FullSearch(..) => Field::FullSearch,
            MediaQueryType::AlbumUuid(..) => Field::AlbumUuid,
            MediaQueryType::Tag(..) => Field::Tag,
            MediaQueryType::HasThumbnail(..) => Field::HasThumbnail,
        }
    }

    /// A copy of the filter.
    pub fn duplicate(&self) -> (r: MediaQueryType)
        ensures
            r@ == self@,
    {
        match self {
            MediaQueryType::OrderBy(o, v) => MediaQueryType::OrderBy(*o, v.clone()),
            MediaQueryType::Asc(o, v) => MediaQueryType::Asc(*o, *v),
            MediaQueryType::Limit(o, v) => MediaQueryType::Limit(*o, *v),
            MediaQueryType::Page(o, v) => MediaQueryType::Page(*o, *v),
            MediaQueryType::Path(o, v) => MediaQueryType::Path(*o, v.clone()),
            MediaQueryType::CreatedAt(o, v) => MediaQueryType::CreatedAt(*o, *v),
            MediaQueryType::IsScreenshot(o, v) => MediaQueryType::IsScreenshot(*o, *v),
            MediaQueryType::MediaType(o, v) => MediaQueryType::MediaType(*o, v.clone()),
            MediaQueryType::HasGps(o, v) => MediaQueryType::HasGps(*o, *v),
            MediaQueryType::ImportId(o, v) => MediaQueryType::ImportId(*o, *v),
            MediaQueryType::Longitude(o, v) => MediaQueryType::Longitude(*o, FloatValue { text: v.text.clone() }),
            MediaQueryType::Latitude(o, v) => MediaQueryType::Latitude(*o, FloatValue { text: v.text.clone() }),
            MediaQueryType::Transcript(o, v) => MediaQueryType::Transcript(*o, v.clone()),
            MediaQueryType::VisionOcr(o, v) => MediaQueryType::VisionOcr(*o, v.clone()),
            MediaQueryType::FullSearch(o, v) => MediaQueryType::FullSearch(*o, v.clone()),
            MediaQueryType::AlbumUuid(o, v) => MediaQueryType::AlbumUuid(*o, *v),
            MediaQueryType::Tag(o, v) => MediaQueryType::Tag(*o, v.clone()),
            MediaQueryType::HasThumbnail(o, v) => MediaQueryType::HasThumbnail(*o, *v),
        }
    }

    /// The tables that the filter needs joined to `media`.
    pub fn tables(&self) -> (r: Vec<JoinableTable>)
        ensures
            r@ == self@.field.spec_tables(),
    {
        self.field().tables()
    }
}

// ---------------------------------------------------------------------------
// Reading a query
// ---------------------------------------------------------------------------

pub open spec fn operator_error(key: Seq<char>, rest: Seq<char>) -> Seq<char> {
    "invalid operator for key '"@ + key + "': "@ + rest
}

/// The operator and value of a filter of the given type, read from the text
/// after the colon; `key` is the field's name, for the error message.
pub open spec fn spec_parse_op_value(kind: DslKind, key: Seq<char>, rest: Seq<char>) -> Result<(DslOp, ValueView), Seq<char>> {
    match kind {
        DslKind::Bool => match DSLBool::spec_from_str(rest) {
            None => Err(operator_error(key, rest)),
            Some(o) => match spec_parse_bool_value(rest.skip(o.spec_to_str().len() as int)) {
                Ok(b) => Ok((DslOp::Bool(o), ValueView::Bool(b))),
                Err(e) => Err(e),
            },
        },
        DslKind::Integer => match DSLInteger::spec_from_str(rest) {
            None => Err(operator_error(key, rest)),
            Some(o) => match spec_parse_integer_value(rest.skip(o.spec_to_str().len() as int)) {
                Ok(i) => Ok((DslOp::Integer(o), ValueView::Integer(i))),
                Err(e) => Err(e),
            },
        },
        DslKind::Float => match DSLFloat::spec_from_str(rest) {
            None => Err(operator_error(key, rest)),
            Some(o) => match spec_parse_float_value(rest.skip(o.spec_to_str().len() as int)) {
                Ok(f) => Ok((DslOp::Float(o), ValueView::Float(f))),
                Err(e) => Err(e),
            },
        },
        DslKind::String => match DSLString::spec_from_str(rest) {
            None => Err(operator_error(key, rest)),
            Some(o) => Ok((DslOp::Str(o), ValueView::Str(rest.skip(o.spec_to_str().len() as int)))),
        },
        DslKind::Date => match DSLDate::spec_from_str(rest) {
            None => Err(operator_error(key, rest)),
            Some(o) => match spec_parse_date_value(rest.skip(o.spec_to_str().len() as int)) {
                Ok(d) => Ok((DslOp::Date(o), ValueView::Date(d))),
                Err(e) => Err(e),
            },
        },
        DslKind::Uuid => match DSLUuid::spec_from_str(rest) {
            None => Err(operator_error(key, rest)),
            Some(o) => match spec_parse_uuid_value(rest.skip(o.spec_to_str().len() as int)) {
                Ok(u) => Ok((DslOp::Uuid(o), ValueView::Uuid(u))),
                Err(e) => Err(e),
            },
        },
    }
}

/// One token `<field>:<op><value>` read as a filter, or the message of its error.
pub open spec fn spec_parse_token(t: Seq<char>) -> Result<FilterView, Seq<char>> {
    match first_index_of(t, ':') {
        None => Err("invalid filter no colon: "@ + t),
        Some(c) => {
            let key = t.take(c);
            let rest = t.skip(c + 1);
            match Field::spec_from_name(key) {
                None => Err("unexpected key '"@ + key + "'"@),
                Some(f) => match spec_parse_op_value(f.spec_kind(), key, rest) {
                    Ok((o, v)) => Ok(FilterView { field: f, op: o, value: v }),
                    Err(e) => Err(e),
                },
            }
        },
    }
}

/// The tokens read as filters, in order; the first error stops the reading.
pub open spec fn spec_parse_tokens(ts: Seq<Seq<char>>) -> Result<Seq<FilterView>, Seq<char>>
    decreases ts.len(),
{
    if ts.len() == 0 {
        Ok(Seq::empty())
    } else {
        match spec_parse_tokens(ts.drop_last()) {
            Err(e) => Err(e),
            Ok(fs) => match spec_parse_token(ts.last()) {
                Err(e) => Err(e),
                Ok(f) => Ok(fs.push(f)),
            },
        }
    }
}

/// What reading a query string gives: its filters, or an error message.
pub open spec fn spec_parse_query(s: Seq<char>) -> Result<Seq<FilterView>, Seq<char>> {
    match spec_parse_filter(s) {
        Err(e) => Err(e),
        Ok(ts) => spec_parse_tokens(ts),
    }
}

/// Once a token fails to read, reading more tokens after it fails the same way.
proof fn lemma_parse_tokens_error_stays(ts: Seq<Seq<char>>, i: int, e: Seq<char>)
    requires
        0 <= i <= ts.len(),
        spec_parse_tokens(ts.take(i)) == Err::<Seq<FilterView>, Seq<char>>(e),
    ensures
        spec_parse_tokens(ts) == Err::<Seq<FilterView>, Seq<char>>(e),
    decreases ts.len() - i,
{
    if i < ts.len() {
        assert(ts.take(i + 1).drop_last() == ts.take(i));
        lemma_parse_tokens_error_stays(ts, i + 1, e);
    } else {
        assert(ts.take(i) == ts);
    }
}

fn char_count(s: &str) -> (n: usize)
    ensures
        n == s@.len(),
{
    chars_of(s).len()
}

fn operator_error_text(key: &[char], rest: &str) -> (e: String)
    ensures
        e@ == operator_error(key@, rest@),
{
    let k = string_of(key);
    let a = concat("invalid operator for key '", k.as_str());
    let b = concat(a.as_str(), "': ");
    concat(b.as_str(), rest)
}

/// The text after the first `n` characters.
fn skip_chars(s: &str, n: usize) -> (r: String)
    requires
        n <= s@.len(),
    ensures
        r@ == s@.skip(n as int),
{
    let cs = chars_of(s);
    let v = sub_chars(&cs, n, cs.len());
    string_of(&v)
}

/// Reads the operator and value of a filter of the given type.
pub fn parse_op_value(kind: DslKind, key: &[char], rest: &str) -> (r: Result<(DslOp, DslValue), String>)
    ensures
        match r {
            Ok((o, v)) => spec_parse_op_value(kind, key@, rest@) == Ok::<(DslOp, ValueView), Seq<char>>((o, v@))
                && o.spec_kind() == kind && v@.kind() == kind,
            Err(e) => spec_parse_op_value(kind, key@, rest@) == Err::<(DslOp, ValueView), Seq<char>>(e@),
        },
{
    match kind {
        DslKind::Bool => match DSLBool::from_str(rest) {
            None => Err(operator_error_text(key, rest)),
            Some(o) => {
                let v = skip_chars(rest, char_count(o.to_str()));
                match DSLBool::parse(v.as_str()) {
                    Ok(b) => Ok((DslOp::Bool(o), DslValue::Bool(b))),
                    Err(e) => Err(e),
                }
            },
        },
        DslKind::Integer => match DSLInteger::from_str(rest) {
            None => Err(operator_error_text(key, rest)),
            Some(o) => {
                let v = skip_chars(rest, char_count(o.to_str()));
                match DSLInteger::parse(v.as_str()) {
                    Ok(i) => Ok((DslOp::Integer(o), DslValue::Integer(i))),
                    Err(e) => Err(e),
                }
            },
        },
        DslKind::Float => match DSLFloat::from_str(rest) {
            None => Err(operator_error_text(key, rest)),
            Some(o) => {
                let v = skip_chars(rest, char_count(o.to_str()));
                match DSLFloat::parse(v.as_str()) {
                    Ok(f) => Ok((DslOp::Float(o), DslValue::Float(f))),
                    Err(e) => Err(e),
                }
            },
        },
        DslKind::String => match DSLString::from_str(rest) {
            None => Err(operator_error_text(key, rest)),
            Some(o) => {
                let v = skip_chars(rest, char_count(o.to_str()));
                Ok((DslOp::Str(o), DslValue::Str(v)))
            },
        },
        DslKind::Date => match DSLDate::from_str(rest) {
            None => Err(operator_error_text(key, rest)),
            Some(o) => {
                let v = skip_chars(rest, char_count(o.to_str()));
                match DSLDate::parse(v.as_str()) {
                    Ok(d) => Ok((DslOp::Date(o), DslValue::Date(d))),
                    Err(e) => Err(e),
                }
            },
        },
        DslKind::Uuid => match DSLUuid::from_str(rest) {
            None => Err(operator_error_text(key, rest)),
            Some(o) => {
                let v = skip_chars(rest, char_count(o.to_str()));
                match DSLUuid::parse(v.as_str()) {
                    Ok(u) => Ok((DslOp::Uuid(o), DslValue::Uuid(u))),
                    Err(e) => Err(e),
                }
            },
        },
    }
}

/// Reads one token `<field>:<op><value>` as a filter.
pub fn parse_token(t: &str) -> (r: Result<MediaQueryType, String>)
    ensures
        match r {
            Ok(f) => spec_parse_token(t@) == Ok::<FilterView, Seq<char>>(f@),
            Err(e) => spec_parse_token(t@) == Err::<FilterView, Seq<char>>(e@),
        },
{
    let cs = chars_of(t);
    match find_char(&cs, ':') {
        None => Err(concat("invalid filter no colon: ", t)),
        Some(c) => {
            let key = sub_chars(&cs, 0, c);
            let rest_chars = sub_chars(&cs, c + 1, cs.len());
            let rest = string_of(&rest_chars);
            assert(key@ == t@.take(c as int));
            assert(rest@ == t@.skip(c + 1));
            match Field::from_name(&key) {
                None => {
                    let k = string_of(&key);
                    let a = concat("unexpected key '", k.as_str());
                    Err(concat(a.as_str(), "'"))
                },
                Some(f) => match parse_op_value(f.kind(), &key, rest.as_str()) {
                    Ok((o, v)) => Ok(MediaQueryType::from_parts(f, o, v)),
                    Err(e) => Err(e),
                },
            }
        },
    }
}

/// Whether the filter is one of `order_by`, `asc`, `limit`, `page`.
fn is_shaping(f: &MediaQueryType) -> (r: bool)
    ensures
        r == is_paging(f@.field),
{
    match f {
        MediaQueryType::OrderBy(..) | MediaQueryType::Asc(..) | MediaQueryType::Limit(..)
        | MediaQueryType::Page(..) => true,
        _ => false,
    }
}

/// The filters of `fs` other than `order_by`, `asc`, `limit` and `page`, in
/// their order.
pub open spec fn selecting_filters(fs: Seq<FilterView>) -> Seq<FilterView>
    decreases fs.len(),
{
    if fs.len() == 0 {
        fs
    } else if is_paging(fs.last().field) {
        selecting_filters(fs.drop_last())
    } else {
        selecting_filters(fs.drop_last()).push(fs.last())
    }
}

proof fn lemma_selecting_filters_select(fs: Seq<FilterView>)
    ensures
        forall|i: int| 0 <= i < selecting_filters(fs).len()
            ==> !is_paging(#[trigger] selecting_filters(fs)[i].field),
    decreases fs.len(),
{
    if fs.len() > 0 {
        lemma_selecting_filters_select(fs.drop_last());
    }
}

/// The counting query of any query passes validation.
pub proof fn lemma_count_query_is_valid(fs: Seq<FilterView>)
    ensures
        spec_validate(selecting_filters(fs)) is Ok,
{
    let c = selecting_filters(fs);
    lemma_selecting_filters_select(fs);
    assert forall|i: int| 0 <= i < c.len() implies !is_paging(#[trigger] c[i].field) by {}
    lemma_validate_accepts_exactly_valid_queries(c);
    assert(is_valid_query(c));
}

/// A query over media: a list of filters, written `<field>:<op><value> ...`.
#[derive(Clone)]
pub struct MediaQuery {
    filters: Vec<MediaQueryType>,
}

impl Default for MediaQuery {
    /// The query without filters.
    fn default() -> (r: MediaQuery)
        ensures
            r@ == Seq::<FilterView>::empty(),
    {
        MediaQuery::new()
    }
}

impl View for MediaQuery {
    type V = Seq<FilterView>;

    closed spec fn view(&self) -> Seq<FilterView> {
        filter_views(self.filters@)
    }
}

impl MediaQuery {
    /// The query without filters.
    pub fn new() -> (r: MediaQuery)
        ensures
            r@ == Seq::<FilterView>::empty(),
    {
        let r = MediaQuery { filters: Vec::new() };
        assert(r@ == Seq::<FilterView>::empty());
        r
    }

    /// Checks that the filters `order_by`, `asc`, `limit` and `page` come
    /// last, at most once each, with `page` at the very end and only after a
    /// `limit`, that they use `=`, and that `order_by` names a safe column.
    pub fn validate(&self) -> (r: Result<(), MediaQueryError>)
        ensures
            match r {
                Ok(()) => spec_validate(self@) == Ok::<(), ErrorView>(()),
                Err(e) => spec_validate(self@) == Err::<(), ErrorView>(e@),
            },
    {
        validate_filters(&self.filters)
    }

    /// The same query without `order_by`, `asc`, `limit` and `page`: the
    /// query that counts the media the query selects.
    pub fn to_count_query(&self) -> (r: MediaQuery)
        ensures
            r@ == selecting_filters(self@),
    {
        let mut filters: Vec<MediaQueryType> = Vec::new();
        let mut i: usize = 0;
        while i < self.filters.len()
            invariant
                i <= self.filters@.len(),
                filter_views(filters@) == selecting_filters(filter_views(self.filters@).take(i as int)),
            decreases self.filters.len() - i,
        {
            let ghost fvs = filter_views(self.filters@);
            assert(fvs.take(i + 1).drop_last() == fvs.take(i as int));
            let f = &self.filters[i];
            if !is_shaping(f) {
                let ghost before = filter_views(filters@);
                filters.push(f.duplicate());
                assert(filter_views(filters@) == before.push(f@));
            }
            i = i + 1;
        }
        assert(filter_views(self.filters@).take(self.filters@.len() as int) == filter_views(self.filters@));
        MediaQuery { filters }
    }

    /// Whether the offset of every `page` filter, its value times the first
    /// `limit`, fits in an `i32`.
    pub fn offset_fits(&self) -> (r: bool)
        ensures
            r == offset_in_range(self@),
    {
        offset_fits_in(&self.filters)
    }

    /// Joins to the query, once each, the tables that the filters need, in
    /// the order in which the filters first need them.
    pub fn add_tables(&self, query: &mut SqlQuery)
        ensures
            final(query)@ == old(query)@ + join_pieces(distinct_tables(Seq::empty(), needed_tables(self@))),
    {
        push_tables(query, &self.filters)
    }

    /// Validates the query, then adds its conditions, ordering and paging to
    /// `query`, after a `WHERE 1=1` when `query` has no `WHERE` yet.
    pub fn add_queries(&self, query: &mut SqlQuery) -> (r: Result<(), MediaQueryError>)
        requires
            spec_validate(self@) is Ok ==> offset_in_range(self@),
        ensures
            match r {
                Ok(()) => spec_validate(self@) is Ok && final(query)@ == old(query)@
                    + query_pieces(self@, !contains_seq(sql_text(old(query)@), "WHERE"@)),
                Err(e) => spec_validate(self@) == Err::<(), ErrorView>(e@) && final(query)@ == old(query)@,
            },
    {
        match self.validate() {
            Ok(()) => {},
            Err(e) => return Err(e),
        }
        let ghost start = query@;
        let sql = query.sql();
        if !contains_str(sql.as_str(), "WHERE") {
            query.push(" WHERE 1=1 ");
        }
        push_filters(query, &self.filters);
        Ok(())
    }

    /// Adds the query to `query`: the joins it needs, then its conditions,
    /// ordering and paging. A query that fails validation leaves the joins
    /// added and nothing more.
    pub fn sqlize(&self, query: &mut SqlQuery) -> (r: Result<(), MediaQueryError>)
        requires
            spec_validate(self@) is Ok ==> offset_in_range(self@),
        ensures
            ({
                let joined = old(query)@ + join_pieces(distinct_tables(Seq::empty(), needed_tables(self@)));
                match r {
                    Ok(()) => spec_validate(self@) is Ok && final(query)@ == joined
                        + query_pieces(self@, !contains_seq(sql_text(joined), "WHERE"@)),
                    Err(e) => spec_validate(self@) == Err::<(), ErrorView>(e@) && final(query)@ == joined,
                }
            }),
    {
        self.add_tables(query);
        self.add_queries(query)
    }

    /// The text of the query, as it is written: its filters
    /// `<field>:<op><value>`, separated by single spaces, each value quoted
    /// when it holds whitespace.
    pub fn to_string(&self) -> (r: String)
        ensures
            r@ == query_text(self@),
    {
        filters_text(&self.filters)
    }

    /// The filters of the query, in order.
    pub fn filters(&self) -> (r: &Vec<MediaQueryType>)
        ensures
            filter_views(r@) == self@,
    {
        &self.filters
    }

    /// Reads a query from its text, as `FromStr` does for the query type.
    pub fn from_str(s: &str) -> (r: Result<MediaQuery, String>)
        requires
            filter_input_supported(s@),
        ensures
            match r {
                Ok(q) => spec_parse_query(s@) == Ok::<Seq<FilterView>, Seq<char>>(q@),
                Err(e) => spec_parse_query(s@) == Err::<Seq<FilterView>, Seq<char>>(e@),
            },
    {
        let tokens = match parse_filter(s) {
            Ok(ts) => ts,
            Err(e) => return Err(e),
        };
        let ghost ts = views(tokens@);
        let mut out = MediaQuery { filters: Vec::new() };
        let mut i: usize = 0;
        assert(ts.take(0) == Seq::<Seq<char>>::empty());
        assert(out@ == Seq::<FilterView>::empty());
        while i < tokens.len()
            invariant
                i <= tokens.len(),
                ts == views(tokens@),
                spec_parse_filter(s@) == Ok::<Seq<Seq<char>>, Seq<char>>(ts),
                spec_parse_tokens(ts.take(i as int)) == Ok::<Seq<FilterView>, Seq<char>>(out@),
            decreases tokens.len() - i,
        {
            assert(ts.take(i + 1).drop_last() == ts.take(i as int));
            assert(ts.take(i + 1).last() == tokens@[i as int]@);
            match parse_token(tokens[i].as_str()) {
                Ok(f) => {
                    let ghost before = out@;
                    out.filters.push(f);
                    assert(out@ == before.push(f@));
                },
                Err(e) => {
                    proof { lemma_parse_tokens_error_stays(ts, i + 1, e@); }
                    return Err(e);
                },
            }
            i = i + 1;
        }
        assert(ts.take(tokens.len() as int) == ts);
        Ok(out)
    }
}

} // verus!
