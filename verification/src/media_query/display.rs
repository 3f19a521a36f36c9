use vstd::prelude::*;
use crate::media_query::dsl::{DSLType, DSLBool, DSLInteger, DSLFloat, DSLString, DSLDate, DSLUuid};
use crate::media_query::macros::{format_value, spec_format_value};
use crate::media_query::media_query::{
    Field, DslKind, DslOp, ValueView, FilterView, MediaQueryType, filter_views,
};
use crate::media_query::values::{spec_bool_text, spec_int_text, spec_date_text, spec_uuid_text, bool_text, int_text};
use crate::text::{push_all, chars_of, spec_is_whitespace};

verus! {

/// The strings `xs` with `sep` between each two.
pub open spec fn join_with(xs: Seq<Seq<char>>, sep: Seq<char>) -> Seq<char>
    decreases xs.len(),
{
    if xs.len() == 0 {
        Seq::empty()
    } else if xs.len() == 1 {
        xs[0]
    } else {
        join_with(xs.drop_last(), sep) + sep + xs.last()
    }
}

proof fn lemma_join_with_step(xs: Seq<Seq<char>>, i: int, sep: Seq<char>)
    requires
        0 <= i < xs.len(),
    ensures
        join_with(xs.take(i + 1), sep) == if i == 0 { xs[0] } else { join_with(xs.take(i), sep) + sep + xs[i] },
{
    let t = xs.take(i + 1);
    assert(t.drop_last() == xs.take(i));
    assert(t.last() == xs[i]);
}

/// Appends `entry` as the `i`-th element of a list separated by `sep`.
fn push_entry(out: &mut String, i: usize, sep: &str, entry: &str)
    ensures
        final(out)@ == if i == 0 { old(out)@ + entry@ } else { old(out)@ + sep@ + entry@ },
{
    if i > 0 {
        push_all(out, sep);
    }
    push_all(out, entry);
}

// ---------------------------------------------------------------------------
// The description of the filter language
// ---------------------------------------------------------------------------

/// The fields of a media query, in their order of declaration.
pub open spec fn all_fields() -> Seq<Field> {
    seq![
        Field::OrderBy, Field::Asc, Field::Limit, Field::Page, Field::Path, Field::CreatedAt,
        Field::IsScreenshot, Field::MediaType, Field::HasGps, Field::ImportId, Field::Longitude,
        Field::Latitude, Field::Transcript, Field::VisionOcr, Field::FullSearch, Field::AlbumUuid,
        Field::Tag, Field::HasThumbnail,
    ]
}

/// The spellings of the operators of a value type.
pub open spec fn kind_variants(k: DslKind) -> Seq<Seq<char>> {
    match k {
        DslKind::Bool => DSLBool::spec_variants(),
        DslKind::Integer => DSLInteger::spec_variants(),
        DslKind::Float => DSLFloat::spec_variants(),
        DslKind::String => DSLString::spec_variants(),
        DslKind::Date => DSLDate::spec_variants(),
        DslKind::Uuid => DSLUuid::spec_variants(),
    }
}

/// A string between double quotes (as `{:?}` writes the operators, none of
/// which holds a character that it escapes).
pub open spec fn quoted(s: Seq<char>) -> Seq<char> {
    "\""@ + s + "\""@
}

/// A list of strings as `{:?}` writes it.
pub open spec fn debug_list(vs: Seq<Seq<char>>) -> Seq<char> {
    "["@ + join_with(vs.map_values(|v: Seq<char>| quoted(v)), ", "@) + "]"@
}

/// `"<field>": "<type>" `
pub open spec fn field_entry(f: Field) -> Seq<char> {
    "\""@ + f.spec_name() + "\": \""@ + f.spec_kind().spec_name() + "\" "@
}

/// `"<type>": ["<op>", ...]`
pub open spec fn dsl_entry(f: Field) -> Seq<char> {
    "\""@ + f.spec_kind().spec_name() + "\": "@ + debug_list(kind_variants(f.spec_kind()))
}

/// The description of the filter language: each field with its value type,
/// then, for each field, its value type with the spellings of its operators.
pub open spec fn spec_describe() -> Seq<char> {
    "{ \"fields\": {"@
        + join_with(all_fields().map_values(|f: Field| field_entry(f)), ", "@)
        + "}, \"dsl_types\": {"@
        + join_with(all_fields().map_values(|f: Field| dsl_entry(f)), ", "@)
        + "}}"@
}

impl Field {
    /// The fields of a media query, in their order of declaration.
    pub fn all() -> (r: Vec<Field>)
        ensures
            r@ == all_fields(),
    {
        let r = vec![
            Field::OrderBy, Field::Asc, Field::Limit, Field::Page, Field::Path, Field::CreatedAt,
            Field::IsScreenshot, Field::MediaType, Field::HasGps, Field::ImportId, Field::Longitude,
            Field::Latitude, Field::Transcript, Field::VisionOcr, Field::FullSearch, Field::AlbumUuid,
            Field::Tag, Field::HasThumbnail,
        ];
        assert(r@ == all_fields());
        r
    }
}

impl DslKind {
    /// The spellings of the operators of the value type.
    pub fn variants(&self) -> (r: Vec<&'static str>)
        ensures
            r@.map_values(|v: &'static str| v@) == kind_variants(*self),
    {
        match self {
            DslKind::Bool => DSLBool::variants(),
            DslKind::Integer => DSLInteger::variants(),
            DslKind::Float => DSLFloat::variants(),
            DslKind::String => DSLString::variants(),
            DslKind::Date => DSLDate::variants(),
            DslKind::Uuid => DSLUuid::variants(),
        }
    }
}

fn debug_list_text(vs: &Vec<&'static str>) -> (r: String)
    ensures
        r@ == debug_list(vs@.map_values(|v: &'static str| v@)),
{
    let ghost views = vs@.map_values(|v: &'static str| v@);
    let ghost items = views.map_values(|v: Seq<char>| quoted(v));
    let mut body = String::new();
    let mut i: usize = 0;
    while i < vs.len()
        invariant
            i <= vs@.len(),
            views == vs@.map_values(|v: &'static str| v@),
            items == views.map_values(|v: Seq<char>| quoted(v)),
            body@ == join_with(items.take(i as int), ", "@),
        decreases vs.len() - i,
    {
        let mut item = String::new();
        push_all(&mut item, "\"");
        push_all(&mut item, vs[i]);
        push_all(&mut item, "\"");
        assert(item@ == items[i as int]);
        proof { lemma_join_with_step(items, i as int, ", "@); }
        push_entry(&mut body, i, ", ", item.as_str());
        i = i + 1;
    }
    assert(items.take(vs.len() as int) == items);
    let mut out = String::new();
    push_all(&mut out, "[");
    push_all(&mut out, body.as_str());
    push_all(&mut out, "]");
    out
}

fn field_entry_text(f: Field) -> (r: String)
    ensures
        r@ == field_entry(f),
{
    let mut out = String::new();
    push_all(&mut out, "\"");
    push_all(&mut out, f.name());
    push_all(&mut out, "\": \"");
    push_all(&mut out, f.kind().name());
    push_all(&mut out, "\" ");
    out
}

fn dsl_entry_text(f: Field) -> (r: String)
    ensures
        r@ == dsl_entry(f),
{
    let mut out = String::new();
    push_all(&mut out, "\"");
    push_all(&mut out, f.kind().name());
    push_all(&mut out, "\": ");
    let list = debug_list_text(&f.kind().variants());
    push_all(&mut out, list.as_str());
    out
}

impl MediaQueryType {
    /// Describes the filter language as JSON: the fields with their value
    /// types, and the operators of the value types.
    pub fn describe() -> (r: String)
        ensures
            r@ == spec_describe(),
    {
        let fields = Field::all();
        let ghost fe = all_fields().map_values(|f: Field| field_entry(f));
        let ghost de = all_fields().map_values(|f: Field| dsl_entry(f));
        let mut field_list = String::new();
        let mut dsl_list = String::new();
        let mut i: usize = 0;
        while i < fields.len()
            invariant
                i <= fields@.len(),
                fields@ == all_fields(),
                fe == all_fields().map_values(|f: Field| field_entry(f)),
                de == all_fields().map_values(|f: Field| dsl_entry(f)),
                field_list@ == join_with(fe.take(i as int), ", "@),
                dsl_list@ == join_with(de.take(i as int), ", "@),
            decreases fields.len() - i,
        {
            proof {
                lemma_join_with_step(fe, i as int, ", "@);
                lemma_join_with_step(de, i as int, ", "@);
            }
            let a = field_entry_text(fields[i]);
            push_entry(&mut field_list, i, ", ", a.as_str());
            let b = dsl_entry_text(fields[i]);
            push_entry(&mut dsl_list, i, ", ", b.as_str());
            i = i + 1;
        }
        assert(fe.take(fields.len() as int) == fe);
        assert(de.take(fields.len() as int) == de);
        let mut out = String::new();
        push_all(&mut out, "{ \"fields\": {");
        push_all(&mut out, field_list.as_str());
        push_all(&mut out, "}, \"dsl_types\": {");
        push_all(&mut out, dsl_list.as_str());
        push_all(&mut out, "}}");
        out
    }
}

// ---------------------------------------------------------------------------
// The text of a query
// ---------------------------------------------------------------------------

/// The text of a value, as `{}` writes it (a float keeps the literal it was
/// read from).
pub open spec fn value_text(v: ValueView) -> Seq<char> {
    match v {
        ValueView::Bool(b) => spec_bool_text(b),
        ValueView::Integer(i) => spec_int_text(i as int),
        ValueView::Float(t) => t,
        ValueView::Str(s) => s,
        ValueView::Date(d) => spec_date_text(d),
        ValueView::Uuid(u) => spec_uuid_text(u.0),
    }
}

pub open spec fn has_whitespace(s: Seq<char>) -> bool {
    exists|k: int| 0 <= k < s.len() && spec_is_whitespace(#[trigger] s[k])
}

/// A value as it stands in a query's text: quoted when it holds whitespace.
pub open spec fn rendered_value(v: ValueView) -> Seq<char> {
    if has_whitespace(value_text(v)) {
        spec_format_value(value_text(v))
    } else {
        value_text(v)
    }
}

/// `<field>:<op><value>`
pub open spec fn filter_text(f: FilterView) -> Seq<char> {
    f.field.spec_name() + ":"@ + f.op.spec_text() + rendered_value(f.value)
}

/// The text of a query: its filters separated by single spaces.
pub open spec fn query_text(fs: Seq<FilterView>) -> Seq<char> {
    join_with(fs.map_values(|f: FilterView| filter_text(f)), " "@)
}

fn contains_whitespace(s: &str) -> (r: bool)
    ensures
        r == has_whitespace(s@),
{
    let cs = chars_of(s);
    let mut i: usize = 0;
    while i < cs.len()
        invariant
            i <= cs@.len(),
            cs@ == s@,
            forall|k: int| 0 <= k < i ==> !spec_is_whitespace(#[trigger] cs@[k]),
        decreases cs.len() - i,
    {
        if cs[i].is_whitespace() {
            return true;
        }
        i = i + 1;
    }
    false
}

fn value_text_of(f: &MediaQueryType) -> (r: String)
    ensures
        r@ == value_text(f@.value),
{
    match f {
        MediaQueryType::OrderBy(_, v) | MediaQueryType::Path(_, v) | MediaQueryType::MediaType(_, v)
        | MediaQueryType::Transcript(_, v) | MediaQueryType::VisionOcr(_, v)
        | MediaQueryType::FullSearch(_, v) | MediaQueryType::Tag(_, v) => v.clone(),
        MediaQueryType::Asc(_, b) | MediaQueryType::IsScreenshot(_, b) | MediaQueryType::HasGps(_, b)
        | MediaQueryType::HasThumbnail(_, b) => bool_text(*b),
        MediaQueryType::Limit(_, i) | MediaQueryType::Page(_, i) | MediaQueryType::ImportId(_, i) => int_text(*i),
        MediaQueryType::Longitude(_, x) | MediaQueryType::Latitude(_, x) => x.text.clone(),
        MediaQueryType::CreatedAt(_, d) => d.to_text(),
        MediaQueryType::AlbumUuid(_, u) => u.to_text(),
    }
}

fn filter_text_of(f: &MediaQueryType) -> (r: String)
    ensures
        r@ == filter_text(f@),
{
    let field = f.field();
    let value = value_text_of(f);
    let shown = if contains_whitespace(value.as_str()) { format_value(value.as_str()) } else { value };
    let mut out = String::new();
    push_all(&mut out, field.name());
    push_all(&mut out, ":");
    push_all(&mut out, op_of(f).to_str());
    push_all(&mut out, shown.as_str());
    out
}

/// The operator of the filter.
pub fn op_of(f: &MediaQueryType) -> (r: DslOp)
    ensures
        r == f@.op,
{
    match f {
        MediaQueryType::OrderBy(o, _) | MediaQueryType::Path(o, _) | MediaQueryType::MediaType(o, _)
        | MediaQueryType::Transcript(o, _) | MediaQueryType::VisionOcr(o, _)
        | MediaQueryType::FullSearch(o, _) | MediaQueryType::Tag(o, _) => DslOp::Str(*o),
        MediaQueryType::Asc(o, _) | MediaQueryType::IsScreenshot(o, _) | MediaQueryType::HasGps(o, _)
        | MediaQueryType::HasThumbnail(o, _) => DslOp::Bool(*o),
        MediaQueryType::Limit(o, _) | MediaQueryType::Page(o, _) | MediaQueryType::ImportId(o, _) => DslOp::Integer(*o),
        MediaQueryType::Longitude(o, _) | MediaQueryType::Latitude(o, _) => DslOp::Float(*o),
        MediaQueryType::CreatedAt(o, _) => DslOp::Date(*o),
        MediaQueryType::AlbumUuid(o, _) => DslOp::Uuid(*o),
    }
}

/// The text of the filters, separated by single spaces.
pub fn filters_text(fs: &Vec<MediaQueryType>) -> (r: String)
    ensures
        r@ == query_text(filter_views(fs@)),
{
    let ghost items = filter_views(fs@).map_values(|f: FilterView| filter_text(f));
    let mut out = String::new();
    let mut i: usize = 0;
    while i < fs.len()
        invariant
            i <= fs@.len(),
            items == filter_views(fs@).map_values(|f: FilterView| filter_text(f)),
            out@ == join_with(items.take(i as int), " "@),
        decreases fs.len() - i,
    {
        proof { lemma_join_with_step(items, i as int, " "@); }
        let t = filter_text_of(&fs[i]);
        assert(t@ == items[i as int]);
        push_entry(&mut out, i, " ", t.as_str());
        i = i + 1;
    }
    assert(items.take(fs.len() as int) == items);
    out
}

} // verus!
