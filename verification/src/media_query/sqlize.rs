use vstd::prelude::*;
use crate::media_query::dsl::{DSLType, FloatValue};
use crate::media_query::media_query::{
    Field, DslOp, ValueView, FilterView, MediaQueryType, JoinableTable, filter_views,
};
use crate::sql::{SqlQuery, SqlArg, ArgView, PieceView};
use crate::text::concat;

verus! {

/// The SQL comparison operator of a filter's operator.
pub open spec fn op_sql(op: DslOp) -> Seq<char> {
    match op {
        DslOp::Bool(o) => o.spec_to_str(),
        DslOp::Integer(o) => o.spec_to_str(),
        DslOp::Float(o) => o.spec_to_str(),
        DslOp::Str(o) => o.spec_sql(),
        DslOp::Date(o) => o.spec_to_str(),
        DslOp::Uuid(o) => o.spec_to_str(),
    }
}

/// The value of a filter, bound to a placeholder.
pub open spec fn value_arg(v: ValueView) -> ArgView {
    match v {
        ValueView::Bool(b) => ArgView::Bool(b),
        ValueView::Integer(i) => ArgView::Int(i),
        ValueView::Float(t) => ArgView::Float(t),
        ValueView::Str(s) => ArgView::Text(s),
        ValueView::Date(d) => ArgView::Date(d),
        ValueView::Uuid(u) => ArgView::Uuid(u),
    }
}

pub open spec fn bool_value(v: ValueView) -> bool {
    match v {
        ValueView::Bool(b) => b,
        _ => false,
    }
}

pub open spec fn int_value(v: ValueView) -> int {
    match v {
        ValueView::Integer(i) => i as int,
        _ => 0,
    }
}

pub open spec fn str_value(v: ValueView) -> Seq<char> {
    match v {
        ValueView::Str(s) => s,
        _ => Seq::empty(),
    }
}

/// `<column> <op> ?`, with the filter's value bound.
pub open spec fn comparison(column: Seq<char>, f: FilterView) -> Seq<PieceView> {
    seq![PieceView::Text(column), PieceView::Text(op_sql(f.op)), PieceView::Bind(value_arg(f.value))]
}

/// The columns that a full-text search looks in, besides the custom metadata.
pub open spec fn full_search_columns() -> Seq<Seq<char>> {
    seq!["media.name"@, "media_extra.whisper_transcript"@, "media_extra.vision_ocr_result"@]
}

/// ` OR <column> <op> ?` for one searched column.
pub open spec fn search_term(column: Seq<char>, op: Seq<char>, arg: ArgView) -> Seq<PieceView> {
    seq![PieceView::Text(" OR "@), PieceView::Text(column), PieceView::Text(" "@), PieceView::Text(op), PieceView::Bind(arg)]
}

pub open spec fn full_search_pieces(op: Seq<char>, arg: ArgView) -> Seq<PieceView> {
    let cols = full_search_columns();
    seq![PieceView::Text(" AND (1=2"@)]
        + search_term(cols[0], op, arg)
        + search_term(cols[1], op, arg)
        + search_term(cols[2], op, arg)
        + seq![
            PieceView::Text(" OR (custom_metadata.value "@),
            PieceView::Text(op),
            PieceView::Bind(arg),
            PieceView::Text(" AND custom_metadata.include_search = TRUE) "@),
            PieceView::Text(" ) "@),
        ]
}

/// What a filter adds to the query; `limit` is the query's limit, which a
/// `page` multiplies into its offset.
pub open spec fn filter_pieces(f: FilterView, limit: int) -> Seq<PieceView> {
    let not = if bool_value(f.value) { "NOT "@ } else { ""@ };
    match f.field {
        Field::Path => comparison(" AND media.path "@, f),
        Field::CreatedAt => comparison(" AND media.created_at "@, f),
        Field::IsScreenshot => comparison(" AND media.is_screenshot "@, f),
        Field::MediaType => comparison(" AND media.media_type "@, f),
        Field::HasGps => seq![
            PieceView::Text(" AND (media.latitude IS "@),
            PieceView::Text(not),
            PieceView::Text("NULL AND media.longitude IS "@),
            PieceView::Text(not),
            PieceView::Text("NULL)"@),
        ],
        Field::ImportId => comparison(" AND media.import_id "@, f),
        Field::Longitude => comparison(" AND media.longitude "@, f),
        Field::Latitude => comparison(" AND media.latitude "@, f),
        Field::Transcript => comparison(" AND media_extra.whisper_transcript "@, f),
        Field::VisionOcr => comparison(" AND media_extra.vision_ocr_result "@, f),
        Field::AlbumUuid => comparison(" AND album.uuid "@, f),
        Field::HasThumbnail => comparison(" AND media.has_thumbnail "@, f),
        Field::FullSearch => full_search_pieces(op_sql(f.op), value_arg(f.value)),
        Field::OrderBy => seq![PieceView::Text(" ORDER BY "@), PieceView::Text("media."@ + str_value(f.value))],
        Field::Asc => seq![PieceView::Text(if bool_value(f.value) { " ASC"@ } else { " DESC"@ })],
        Field::Limit => seq![PieceView::Text(" LIMIT "@), PieceView::Bind(value_arg(f.value))],
        Field::Page => seq![
            PieceView::Text(" OFFSET "@),
            PieceView::Bind(ArgView::Int((int_value(f.value) * limit) as i32)),
        ],
        Field::Tag => Seq::empty(),
    }
}

/// What the filters add to the query, one after the other.
pub open spec fn filters_pieces(fs: Seq<FilterView>, limit: int) -> Seq<PieceView>
    decreases fs.len(),
{
    if fs.len() == 0 {
        Seq::empty()
    } else {
        filters_pieces(fs.drop_last(), limit) + filter_pieces(fs.last(), limit)
    }
}

/// The `tag` filters of the query, in order.
pub open spec fn tag_filters(fs: Seq<FilterView>) -> Seq<FilterView>
    decreases fs.len(),
{
    if fs.len() == 0 {
        fs
    } else if fs.last().field == Field::Tag {
        tag_filters(fs.drop_last()).push(fs.last())
    } else {
        tag_filters(fs.drop_last())
    }
}

/// ` OR media_tag.tag <op> ?` for each tag filter.
pub open spec fn tag_alternatives(ts: Seq<FilterView>) -> Seq<PieceView>
    decreases ts.len(),
{
    if ts.len() == 0 {
        Seq::empty()
    } else {
        tag_alternatives(ts.drop_last()) + seq![
            PieceView::Text(" OR media_tag.tag "@),
            PieceView::Text(" "@),
            PieceView::Text(op_sql(ts.last().op)),
            PieceView::Bind(value_arg(ts.last().value)),
        ]
    }
}

/// The tag filters together: a medium matches when one of them does.
pub open spec fn tag_pieces(fs: Seq<FilterView>) -> Seq<PieceView> {
    let ts = tag_filters(fs);
    if ts.len() == 0 {
        Seq::empty()
    } else {
        seq![PieceView::Text(" AND (1=2"@)] + tag_alternatives(ts) + seq![PieceView::Text(" )"@)]
    }
}

/// The value of the first `limit` filter (zero when there is none).
pub open spec fn first_limit(fs: Seq<FilterView>) -> int
    decreases fs.len(),
{
    if fs.len() == 0 {
        0
    } else if fs[0].field == Field::Limit {
        int_value(fs[0].value)
    } else {
        first_limit(fs.drop_first())
    }
}

/// The offset of every `page` filter fits in an `i32`.
pub open spec fn offset_in_range(fs: Seq<FilterView>) -> bool {
    forall|i: int| 0 <= i < fs.len() && #[trigger] fs[i].field == Field::Page
        ==> i32::MIN <= int_value(fs[i].value) * first_limit(fs) <= i32::MAX
}

/// Everything the filters add to a query: a `WHERE` when the query has none
/// yet, the tag alternatives, then each filter in order.
pub open spec fn query_pieces(fs: Seq<FilterView>, needs_where: bool) -> Seq<PieceView> {
    (if needs_where { seq![PieceView::Text(" WHERE 1=1 "@)] } else { Seq::empty() })
        + tag_pieces(fs) + filters_pieces(fs, first_limit(fs))
}

/// The tables that the filters need, each time a filter needs one.
pub open spec fn needed_tables(fs: Seq<FilterView>) -> Seq<JoinableTable>
    decreases fs.len(),
{
    if fs.len() == 0 {
        Seq::empty()
    } else {
        needed_tables(fs.drop_last()) + fs.last().field.spec_tables()
    }
}

/// `ts` without repetitions: each table where it first occurs, after the
/// tables of `acc`.
pub open spec fn distinct_tables(acc: Seq<JoinableTable>, ts: Seq<JoinableTable>) -> Seq<JoinableTable>
    decreases ts.len(),
{
    if ts.len() == 0 {
        acc
    } else if acc.contains(ts[0]) {
        distinct_tables(acc, ts.drop_first())
    } else {
        distinct_tables(acc.push(ts[0]), ts.drop_first())
    }
}

/// The joins for the tables, in order.
pub open spec fn join_pieces(ts: Seq<JoinableTable>) -> Seq<PieceView>
    decreases ts.len(),
{
    if ts.len() == 0 {
        Seq::empty()
    } else {
        join_pieces(ts.drop_last()).push(PieceView::Text(ts.last().spec_join_statement()))
    }
}

/// `distinct_tables` keeps each table of `acc` and `ts` once.
pub proof fn lemma_distinct_tables(acc: Seq<JoinableTable>, ts: Seq<JoinableTable>)
    requires
        acc.no_duplicates(),
    ensures
        distinct_tables(acc, ts).no_duplicates(),
        forall|t: JoinableTable| distinct_tables(acc, ts).contains(t) <==> (acc.contains(t) || ts.contains(t)),
    decreases ts.len(),
{
    if ts.len() > 0 {
        let rest = ts.drop_first();
        assert forall|t: JoinableTable| ts.contains(t) <==> (t == ts[0] || rest.contains(t)) by {
            if ts.contains(t) && t != ts[0] {
                let k = choose|k: int| 0 <= k < ts.len() && ts[k] == t;
                assert(rest[k - 1] == t);
            }
            if rest.contains(t) {
                let k = choose|k: int| 0 <= k < rest.len() && rest[k] == t;
                assert(ts[k + 1] == t);
            }
        }
        if acc.contains(ts[0]) {
            lemma_distinct_tables(acc, rest);
        } else {
            let acc2 = acc.push(ts[0]);
            assert forall|t: JoinableTable| acc2.contains(t) <==> (acc.contains(t) || t == ts[0]) by {
                if acc2.contains(t) {
                    let k = choose|k: int| 0 <= k < acc2.len() && acc2[k] == t;
                    if k < acc.len() {
                        assert(acc[k] == t);
                    }
                }
                if acc.contains(t) {
                    let k = choose|k: int| 0 <= k < acc.len() && acc[k] == t;
                    assert(acc2[k] == t);
                }
                if t == ts[0] {
                    assert(acc2[acc.len() as int] == t);
                }
            }
            assert(acc2.no_duplicates()) by {
                assert forall|i: int, j: int| 0 <= i < acc2.len() && 0 <= j < acc2.len() && i != j
                    implies acc2[i] != acc2[j] by {
                    if i == acc.len() {
                        assert(acc.contains(acc2[j]));
                    } else if j == acc.len() {
                        assert(acc.contains(acc2[i]));
                    }
                }
            }
            lemma_distinct_tables(acc2, rest);
        }
    }
}

/// The joins that a query adds name each table that one of its filters
/// needs, once, and no other table.
pub proof fn lemma_tables_joined_once(fs: Seq<FilterView>)
    ensures
        distinct_tables(Seq::empty(), needed_tables(fs)).no_duplicates(),
        forall|t: JoinableTable| #[trigger] distinct_tables(Seq::empty(), needed_tables(fs)).contains(t)
            <==> needed_tables(fs).contains(t),
{
    lemma_distinct_tables(Seq::empty(), needed_tables(fs));
}

/// The SQL comparison operator of the filter's operator.
fn op_sql_text(op: &DslOp) -> (r: &'static str)
    ensures
        r@ == op_sql(*op),
{
    match op {
        DslOp::Bool(o) => o.to_sql_string(),
        DslOp::Integer(o) => o.to_sql_string(),
        DslOp::Float(o) => o.to_sql_string(),
        DslOp::Str(o) => o.to_sql_string(),
        DslOp::Date(o) => o.to_sql_string(),
        DslOp::Uuid(o) => o.to_sql_string(),
    }
}

fn push_comparison(query: &mut SqlQuery, column: &str, op: DslOp, arg: SqlArg)
    ensures
        final(query)@ == old(query)@ + seq![
            PieceView::Text(column@),
            PieceView::Text(op_sql(op)),
            PieceView::Bind(arg@),
        ],
{
    query.push(column);
    query.push(op_sql_text(&op));
    query.push_bind(arg);
}

fn push_search_term(query: &mut SqlQuery, column: &str, op: &str, search: &String)
    ensures
        final(query)@ == old(query)@ + search_term(column@, op@, ArgView::Text(search@)),
{
    query.push(" OR ");
    query.push(column);
    query.push(" ");
    query.push(op);
    query.push_bind(SqlArg::Text(search.clone()));
}

fn push_full_search(query: &mut SqlQuery, op: &str, search: &String)
    ensures
        final(query)@ == old(query)@ + full_search_pieces(op@, ArgView::Text(search@)),
{
    let ghost start = query@;
    let ghost arg = ArgView::Text(search@);
    proof { reveal_strlit("media.name"); reveal_strlit("media_extra.whisper_transcript"); reveal_strlit("media_extra.vision_ocr_result"); }
    query.push(" AND (1=2");
    push_search_term(query, "media.name", op, search);
    push_search_term(query, "media_extra.whisper_transcript", op, search);
    push_search_term(query, "media_extra.vision_ocr_result", op, search);
    query.push(" OR (custom_metadata.value ");
    query.push(op);
    query.push_bind(SqlArg::Text(search.clone()));
    query.push(" AND custom_metadata.include_search = TRUE) ");
    query.push(" ) ");
    let ghost cols = full_search_columns();
    assert(cols[0] == "media.name"@);
    assert(cols[1] == "media_extra.whisper_transcript"@);
    assert(cols[2] == "media_extra.vision_ocr_result"@);
    assert(query@ == start + full_search_pieces(op@, arg));
}

/// Adds what the filter `f` contributes to the query.
fn push_filter(query: &mut SqlQuery, f: &MediaQueryType, limit: i32)
    requires
        f@.field == Field::Page ==> i32::MIN <= int_value(f@.value) * limit <= i32::MAX,
    ensures
        final(query)@ == old(query)@ + filter_pieces(f@, limit as int),
{
    let ghost start = query@;
    match f {
        MediaQueryType::Path(op, v) => {
            push_comparison(query, " AND media.path ", DslOp::Str(*op), SqlArg::Text(v.clone()));
            assert(query@ == start + filter_pieces(f@, limit as int));
        },
        MediaQueryType::CreatedAt(op, v) => {
            push_comparison(query, " AND media.created_at ", DslOp::Date(*op), SqlArg::Date(*v));
            assert(query@ == start + filter_pieces(f@, limit as int));
        },
        MediaQueryType::IsScreenshot(op, v) => {
            push_comparison(query, " AND media.is_screenshot ", DslOp::Bool(*op), SqlArg::Bool(*v));
            assert(query@ == start + filter_pieces(f@, limit as int));
        },
        MediaQueryType::MediaType(op, v) => {
            push_comparison(query, " AND media.media_type ", DslOp::Str(*op), SqlArg::Text(v.clone()));
            assert(query@ == start + filter_pieces(f@, limit as int));
        },
        MediaQueryType::HasGps(_, gps) => {
            let not = if *gps { "NOT " } else { "" };
            query.push(" AND (media.latitude IS ");
            query.push(not);
            query.push("NULL AND media.longitude IS ");
            query.push(not);
            query.push("NULL)");
            assert(query@ == start + filter_pieces(f@, limit as int));
        },
        MediaQueryType::ImportId(op, v) => {
            push_comparison(query, " AND media.import_id ", DslOp::Integer(*op), SqlArg::Int(*v));
            assert(query@ == start + filter_pieces(f@, limit as int));
        },
        MediaQueryType::Longitude(op, v) => {
            push_comparison(query, " AND media.longitude ", DslOp::Float(*op), SqlArg::Float(FloatValue { text: v.text.clone() }));
            assert(query@ == start + filter_pieces(f@, limit as int));
        },
        MediaQueryType::Latitude(op, v) => {
            push_comparison(query, " AND media.latitude ", DslOp::Float(*op), SqlArg::Float(FloatValue { text: v.text.clone() }));
            assert(query@ == start + filter_pieces(f@, limit as int));
        },
        MediaQueryType::Transcript(op, v) => {
            push_comparison(query, " AND media_extra.whisper_transcript ", DslOp::Str(*op), SqlArg::Text(v.clone()));
            assert(query@ == start + filter_pieces(f@, limit as int));
        },
        MediaQueryType::VisionOcr(op, v) => {
            push_comparison(query, " AND media_extra.vision_ocr_result ", DslOp::Str(*op), SqlArg::Text(v.clone()));
            assert(query@ == start + filter_pieces(f@, limit as int));
        },
        MediaQueryType::AlbumUuid(op, v) => {
            push_comparison(query, " AND album.uuid ", DslOp::Uuid(*op), SqlArg::Uuid(*v));
            assert(query@ == start + filter_pieces(f@, limit as int));
        },
        MediaQueryType::HasThumbnail(op, v) => {
            push_comparison(query, " AND media.has_thumbnail ", DslOp::Bool(*op), SqlArg::Bool(*v));
            assert(query@ == start + filter_pieces(f@, limit as int));
        },
        MediaQueryType::FullSearch(op, search) => {
            push_full_search(query, op.to_sql_string(), search);
            assert(query@ == start + filter_pieces(f@, limit as int));
        },
        MediaQueryType::OrderBy(_, col) => {
            query.push(" ORDER BY ");
            let column = concat("media.", col.as_str());
            query.push(column.as_str());
            assert(query@ == start + filter_pieces(f@, limit as int));
        },
        MediaQueryType::Asc(_, asc) => {
            query.push(if *asc { " ASC" } else { " DESC" });
            assert(query@ == start + filter_pieces(f@, limit as int));
        },
        MediaQueryType::Limit(_, limit) => {
            query.push(" LIMIT ");
            query.push_bind(SqlArg::Int(*limit));
            assert(query@ == start + filter_pieces(f@, *limit as int));
        },
        MediaQueryType::Page(_, page) => {
            query.push(" OFFSET ");
            let offset = *page * limit;
            query.push_bind(SqlArg::Int(offset));
            assert(offset == (int_value(f@.value) * limit) as i32);
            assert(query@ == start + filter_pieces(f@, limit as int));
        },
        MediaQueryType::Tag(_, _) => {
            assert(query@ == start + filter_pieces(f@, limit as int));
        },
    }
}

/// The value of the first `limit` filter (zero when there is none).
fn find_first_limit(fs: &Vec<MediaQueryType>) -> (r: i32)
    ensures
        r as int == first_limit(filter_views(fs@)),
{
    let ghost fvs = filter_views(fs@);
    let mut i: usize = 0;
    assert(fvs.skip(0) == fvs);
    while i < fs.len()
        invariant
            i <= fs@.len(),
            fvs == filter_views(fs@),
            first_limit(fvs) == first_limit(fvs.skip(i as int)),
        decreases fs.len() - i,
    {
        let ghost rest = fvs.skip(i as int);
        assert(rest.drop_first() == fvs.skip(i + 1));
        assert(rest[0] == fs@[i as int]@);
        if let MediaQueryType::Limit(_, limit) = &fs[i] {
            return *limit;
        }
        i = i + 1;
    }
    assert(fvs.skip(fs.len() as int).len() == 0);
    0
}

/// The product of two `i32` fits in an `i64`.
pub proof fn lemma_i32_product(a: i32, b: i32)
    ensures
        i64::MIN <= a * b <= i64::MAX,
{
    assert(-4611686018427387904 <= a * b <= 4611686018427387904) by (nonlinear_arith)
        requires
            -2147483648 <= a <= 2147483647,
            -2147483648 <= b <= 2147483647,
    {
        assert(-2147483648 <= a <= 2147483647);
    }
}

/// Whether the offset of every `page` filter fits in an `i32`.
pub fn offset_fits_in(fs: &Vec<MediaQueryType>) -> (r: bool)
    ensures
        r == offset_in_range(filter_views(fs@)),
{
    let ghost fvs = filter_views(fs@);
    let limit = find_first_limit(fs);
    let mut i: usize = 0;
    while i < fs.len()
        invariant
            i <= fs@.len(),
            fvs == filter_views(fs@),
            limit as int == first_limit(fvs),
            forall|j: int| 0 <= j < i && #[trigger] fvs[j].field == Field::Page
                ==> i32::MIN <= int_value(fvs[j].value) * first_limit(fvs) <= i32::MAX,
        decreases fs.len() - i,
    {
        assert(fvs[i as int] == fs@[i as int]@);
        if let MediaQueryType::Page(_, page) = &fs[i] {
            proof { lemma_i32_product(*page, limit); }
            let offset = (*page as i64) * (limit as i64);
            if offset < -2147483648 || offset > 2147483647 {
                assert(fvs[i as int].field == Field::Page);
                return false;
            }
        }
        i = i + 1;
    }
    true
}

/// Adds the tag filters, which any one of may match.
fn push_tags(query: &mut SqlQuery, fs: &Vec<MediaQueryType>)
    ensures
        final(query)@ == old(query)@ + tag_pieces(filter_views(fs@)),
{
    let ghost fvs = filter_views(fs@);
    let ghost start = query@;
    let mut any = false;
    let mut i: usize = 0;
    while i < fs.len()
        invariant
            i <= fs@.len(),
            fvs == filter_views(fs@),
            any == (tag_filters(fvs.take(i as int)).len() > 0),
        decreases fs.len() - i,
    {
        assert(fvs.take(i + 1).drop_last() == fvs.take(i as int));
        if let MediaQueryType::Tag(_, _) = &fs[i] {
            any = true;
        }
        i = i + 1;
    }
    assert(fvs.take(fs.len() as int) == fvs);
    if any {
        query.push(" AND (1=2");
        let ghost open = query@;
        let mut j: usize = 0;
        while j < fs.len()
            invariant
                j <= fs@.len(),
                fvs == filter_views(fs@),
                query@ == open + tag_alternatives(tag_filters(fvs.take(j as int))),
            decreases fs.len() - j,
        {
            assert(fvs.take(j + 1).drop_last() == fvs.take(j as int));
            assert(fvs.take(j + 1).last() == fs@[j as int]@);
            let ghost before = query@;
            if let MediaQueryType::Tag(op, search) = &fs[j] {
                query.push(" OR media_tag.tag ");
                query.push(" ");
                query.push(op.to_sql_string());
                query.push_bind(SqlArg::Text(search.clone()));
                let ghost tf = tag_filters(fvs.take(j as int));
                assert(tag_filters(fvs.take(j + 1)) == tf.push(fs@[j as int]@));
                assert(tf.push(fs@[j as int]@).drop_last() == tf);
                assert(query@ == before + seq![
                    PieceView::Text(" OR media_tag.tag "@),
                    PieceView::Text(" "@),
                    PieceView::Text(op_sql(fs@[j as int]@.op)),
                    PieceView::Bind(value_arg(fs@[j as int]@.value)),
                ]);
            }
            j = j + 1;
        }
        assert(fvs.take(fs.len() as int) == fvs);
        query.push(" )");
    }
}

/// Adds the filters' conditions, ordering and paging to the query.
pub fn push_filters(query: &mut SqlQuery, fs: &Vec<MediaQueryType>)
    requires
        offset_in_range(filter_views(fs@)),
    ensures
        final(query)@ == old(query)@ + tag_pieces(filter_views(fs@))
            + filters_pieces(filter_views(fs@), first_limit(filter_views(fs@))),
{
    let ghost fvs = filter_views(fs@);
    push_tags(query, fs);
    let ghost after_tags = query@;
    let limit = find_first_limit(fs);
    let mut i: usize = 0;
    while i < fs.len()
        invariant
            i <= fs@.len(),
            fvs == filter_views(fs@),
            limit as int == first_limit(fvs),
            offset_in_range(fvs),
            query@ == after_tags + filters_pieces(fvs.take(i as int), limit as int),
        decreases fs.len() - i,
    {
        assert(fvs.take(i + 1).drop_last() == fvs.take(i as int));
        assert(fvs[i as int] == fs@[i as int]@);
        push_filter(query, &fs[i], limit);
        i = i + 1;
    }
    assert(fvs.take(fs.len() as int) == fvs);
}

/// The joins of the tables that the filters need, each table once, in the
/// order in which the filters first need them.
pub fn push_tables(query: &mut SqlQuery, fs: &Vec<MediaQueryType>)
    ensures
        final(query)@ == old(query)@ + join_pieces(distinct_tables(Seq::empty(), needed_tables(filter_views(fs@)))),
{
    let ghost fvs = filter_views(fs@);
    let mut tables: Vec<JoinableTable> = Vec::new();
    let mut i: usize = 0;
    assert(fvs.skip(0) == fvs);
    while i < fs.len()
        invariant
            i <= fs@.len(),
            fvs == filter_views(fs@),
            distinct_tables(Seq::empty(), needed_tables(fvs)) == distinct_tables(tables@, needed_tables(fvs.skip(i as int))),
        decreases fs.len() - i,
    {
        let ts = fs[i].tables();
        proof {
            lemma_needed_tables_front(fvs, i as int);
            assert(ts@.skip(0) == ts@);
        }
        let mut k: usize = 0;
        while k < ts.len()
            invariant
                i < fs@.len(),
                k <= ts@.len(),
                fvs == filter_views(fs@),
                ts@ == fvs[i as int].field.spec_tables(),
                distinct_tables(Seq::empty(), needed_tables(fvs)) == distinct_tables(tables@, ts@.skip(k as int) + needed_tables(fvs.skip(i + 1))),
            decreases ts.len() - k,
        {
            let t = ts[k];
            let mut present = false;
            let mut m: usize = 0;
            while m < tables.len()
                invariant
                    m <= tables@.len(),
                    present == exists|q: int| 0 <= q < m && tables@[q] == t,
                decreases tables.len() - m,
            {
                if tables[m] == t {
                    present = true;
                }
                m = m + 1;
            }
            assert(present == tables@.contains(t));
            let ghost rest = ts@.skip(k as int) + needed_tables(fvs.skip(i + 1));
            assert(rest[0] == t);
            assert(rest.drop_first() == ts@.skip(k + 1) + needed_tables(fvs.skip(i + 1)));
            if !present {
                tables.push(t);
            }
            k = k + 1;
        }
        assert(ts@.skip(ts@.len() as int) + needed_tables(fvs.skip(i + 1)) == needed_tables(fvs.skip(i + 1)));
        i = i + 1;
    }
    assert(fvs.skip(fs.len() as int).len() == 0);
    let ghost start = query@;
    let mut j: usize = 0;
    while j < tables.len()
        invariant
            j <= tables@.len(),
            query@ == start + join_pieces(tables@.take(j as int)),
        decreases tables.len() - j,
    {
        assert(tables@.take(j + 1).drop_last() == tables@.take(j as int));
        query.push(tables[j].join_statement());
        j = j + 1;
    }
    assert(tables@.take(tables@.len() as int) == tables@);
}

proof fn lemma_needed_tables_front(fs: Seq<FilterView>, i: int)
    requires
        0 <= i < fs.len(),
    ensures
        needed_tables(fs.skip(i)) == fs[i].field.spec_tables() + needed_tables(fs.skip(i + 1)),
    decreases fs.len() - i,
{
    let s = fs.skip(i);
    if i + 1 == fs.len() {
        assert(s.drop_last().len() == 0);
        assert(needed_tables(s.drop_last()) == Seq::<JoinableTable>::empty());
        assert(fs.skip(i + 1).len() == 0);
        assert(needed_tables(fs.skip(i + 1)) == Seq::<JoinableTable>::empty());
        assert(s.last() == fs[i]);
        assert(needed_tables(s) == fs[i].field.spec_tables());
        assert(fs[i].field.spec_tables() + Seq::<JoinableTable>::empty() == fs[i].field.spec_tables());
    } else {
        let d = fs.drop_last();
        lemma_needed_tables_front(d, i);
        assert(d.skip(i) == s.drop_last());
        assert(d.skip(i + 1) == fs.skip(i + 1).drop_last());
        assert(fs.skip(i + 1).last() == fs.last());
        assert(s.last() == fs.last());
        assert(d[i] == fs[i]);
        assert(needed_tables(s) == needed_tables(s.drop_last()) + fs.last().field.spec_tables());
        assert(needed_tables(fs.skip(i + 1)) == needed_tables(fs.skip(i + 1).drop_last()) + fs.last().field.spec_tables());
    }
}

proof fn lemma_filters_pieces_concat(a: Seq<FilterView>, b: Seq<FilterView>, limit: int)
    ensures
        filters_pieces(a + b, limit) == filters_pieces(a, limit) + filters_pieces(b, limit),
    decreases b.len(),
{
    if b.len() == 0 {
        assert(a + b =~= a);
        assert(filters_pieces(a, limit) + filters_pieces(b, limit) =~= filters_pieces(a, limit));
    } else {
        lemma_filters_pieces_concat(a, b.drop_last(), limit);
        assert((a + b).drop_last() =~= a + b.drop_last());
        assert((a + b).last() == b.last());
    }
}

/// The SQL of a filter on a coordinate, wherever it stands in a query: the
/// condition ` AND media.longitude ` (for `longitude`) or ` AND media.latitude `
/// (for `latitude`) on the filter's own column, the operator's SQL and the
/// filter's value bound, between the SQL of the filters before and after it.
pub proof fn lemma_coordinate_filters_compare_their_column(fs: Seq<FilterView>, k: int, limit: int)
    requires
        0 <= k < fs.len(),
        fs[k].field == Field::Longitude || fs[k].field == Field::Latitude,
    ensures
        filters_pieces(fs, limit) == filters_pieces(fs.take(k), limit)
            + seq![
                PieceView::Text(if fs[k].field == Field::Longitude { " AND media.longitude "@ } else { " AND media.latitude "@ }),
                PieceView::Text(op_sql(fs[k].op)),
                PieceView::Bind(value_arg(fs[k].value)),
            ]
            + filters_pieces(fs.skip(k + 1), limit),
{
    assert(fs =~= fs.take(k) + (seq![fs[k]] + fs.skip(k + 1)));
    lemma_filters_pieces_concat(fs.take(k), seq![fs[k]] + fs.skip(k + 1), limit);
    lemma_filters_pieces_concat(seq![fs[k]], fs.skip(k + 1), limit);
    let one = seq![fs[k]];
    assert(one.drop_last() =~= Seq::<FilterView>::empty());
    assert(one.last() == fs[k]);
    assert(filters_pieces(one.drop_last(), limit) == Seq::<PieceView>::empty());
    assert(Seq::<PieceView>::empty() + filter_pieces(fs[k], limit) =~= filter_pieces(fs[k], limit));
    assert(filters_pieces(one, limit) == filter_pieces(fs[k], limit));
}

/// A query of one coordinate filter selects on that coordinate's own column:
/// after the `WHERE` it needs, exactly ` AND media.longitude ` (or
/// ` AND media.latitude `), the operator's SQL and the value bound.
pub proof fn lemma_coordinate_query_sql(f: FilterView, needs_where: bool)
    requires
        f.field == Field::Longitude || f.field == Field::Latitude,
    ensures
        query_pieces(seq![f], needs_where)
            == (if needs_where { seq![PieceView::Text(" WHERE 1=1 "@)] } else { Seq::empty() })
            + seq![
                PieceView::Text(if f.field == Field::Longitude { " AND media.longitude "@ } else { " AND media.latitude "@ }),
                PieceView::Text(op_sql(f.op)),
                PieceView::Bind(value_arg(f.value)),
            ],
{
    let fs = seq![f];
    assert(fs.drop_last() =~= Seq::<FilterView>::empty());
    assert(fs.last() == f);
    assert(tag_filters(fs.drop_last()) == Seq::<FilterView>::empty());
    assert(tag_filters(fs) =~= Seq::<FilterView>::empty());
    assert(tag_pieces(fs) =~= Seq::<PieceView>::empty());
    lemma_coordinate_filters_compare_their_column(fs, 0, first_limit(fs));
    assert(fs.take(0) =~= Seq::<FilterView>::empty());
    assert(fs.skip(1) =~= Seq::<FilterView>::empty());
}

} // verus!
