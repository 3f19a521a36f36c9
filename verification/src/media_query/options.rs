use vstd::prelude::*;
use crate::models::media::{safe_column, spec_safe_column};
use crate::sql::{SqlQuery, SqlArg, ArgView, PieceView};
use crate::text::concat;

verus! {

/// A query over media as a set of optional settings: ordering, paging, and
/// conditions on the path, the creation time and a few flags.
#[derive(Debug, Clone)]
pub struct MediaQuery {
    pub order_by: Option<String>,
    pub asc: Option<bool>,
    pub limit: Option<i32>,
    pub page: Option<i32>,
    pub filter_path: Option<String>,
    pub filter_not_path: Option<String>,
    /// Only media created before this instant (milliseconds since the Unix epoch, UTC).
    pub before: Option<i64>,
    /// Only media created after this instant (milliseconds since the Unix epoch, UTC).
    pub after: Option<i64>,
    pub is_screenshot: Option<bool>,
    pub import_id: Option<i32>,
    pub has_gps: Option<bool>,
}

/// The settings of a query as the contracts see them.
pub struct OptionsView {
    pub order_by: Option<Seq<char>>,
    pub asc: Option<bool>,
    pub limit: Option<i32>,
    pub page: Option<i32>,
    pub filter_path: Option<Seq<char>>,
    pub filter_not_path: Option<Seq<char>>,
    pub before: Option<i64>,
    pub after: Option<i64>,
    pub is_screenshot: Option<bool>,
    pub import_id: Option<i32>,
    pub has_gps: Option<bool>,
}

pub open spec fn text_option(o: Option<String>) -> Option<Seq<char>> {
    match o {
        Some(s) => Some(s@),
        None => None,
    }
}

impl View for MediaQuery {
    type V = OptionsView;

    open spec fn view(&self) -> OptionsView {
        OptionsView {
            order_by: text_option(self.order_by),
            asc: self.asc,
            limit: self.limit,
            page: self.page,
            filter_path: text_option(self.filter_path),
            filter_not_path: text_option(self.filter_not_path),
            before: self.before,
            after: self.after,
            is_screenshot: self.is_screenshot,
            import_id: self.import_id,
            has_gps: self.has_gps,
        }
    }
}

pub open spec fn no_options() -> OptionsView {
    OptionsView {
        order_by: None,
        asc: None,
        limit: None,
        page: None,
        filter_path: None,
        filter_not_path: None,
        before: None,
        after: None,
        is_screenshot: None,
        import_id: None,
        has_gps: None,
    }
}

/// `<sql> ?` with `arg` bound, when the setting is present.
pub open spec fn bound_condition(sql: Seq<char>, arg: Option<ArgView>) -> Seq<PieceView> {
    match arg {
        Some(a) => seq![PieceView::Text(sql), PieceView::Bind(a)],
        None => Seq::empty(),
    }
}

pub open spec fn text_arg(o: Option<Seq<char>>) -> Option<ArgView> {
    match o {
        Some(s) => Some(ArgView::Text(s)),
        None => None,
    }
}

pub open spec fn time_arg(o: Option<i64>) -> Option<ArgView> {
    match o {
        Some(t) => Some(ArgView::Timestamp(t)),
        None => None,
    }
}

pub open spec fn bool_arg(o: Option<bool>) -> Option<ArgView> {
    match o {
        Some(b) => Some(ArgView::Bool(b)),
        None => None,
    }
}

pub open spec fn int_arg(o: Option<i32>) -> Option<ArgView> {
    match o {
        Some(i) => Some(ArgView::Int(i)),
        None => None,
    }
}

/// The conditions that the settings put on the media.
pub open spec fn condition_pieces(q: OptionsView) -> Seq<PieceView> {
    bound_condition(" AND path LIKE "@, text_arg(q.filter_path))
        + bound_condition(" AND path NOT LIKE "@, text_arg(q.filter_not_path))
        + bound_condition(" AND created_at < "@, time_arg(q.before))
        + bound_condition(" AND created_at > "@, time_arg(q.after))
        + bound_condition(" AND is_screenshot = "@, bool_arg(q.is_screenshot))
        + bound_condition(" AND import_id = "@, int_arg(q.import_id))
        + gps_pieces(q.has_gps)
}

/// The condition on the location that `has_gps` asks for.
pub open spec fn gps_pieces(has_gps: Option<bool>) -> Seq<PieceView> {
    match has_gps {
        Some(true) => seq![PieceView::Text(" AND latitude IS NOT NULL AND longitude IS NOT NULL"@)],
        Some(false) => seq![PieceView::Text(" AND (latitude IS NULL OR longitude IS NULL)"@)],
        None => Seq::empty(),
    }
}

/// The ordering and paging that the settings ask for (the ordering column
/// being known to be safe).
pub open spec fn order_pieces(q: OptionsView) -> Seq<PieceView> {
    (match q.order_by {
        Some(c) => seq![PieceView::Text(" ORDER BY "@), PieceView::Text("media."@ + c)],
        None => Seq::empty(),
    }) + (match q.asc {
        Some(a) => seq![PieceView::Text(if a { " ASC"@ } else { " DESC"@ })],
        None => Seq::empty(),
    }) + (match q.limit {
        Some(l) => seq![PieceView::Text(" LIMIT "@), PieceView::Bind(ArgView::Int(l))] + match q.page {
            Some(p) => seq![PieceView::Text(" OFFSET "@), PieceView::Bind(ArgView::Int((p * l) as i32))],
            None => Seq::empty(),
        },
        None => Seq::empty(),
    })
}

/// The offset of the page fits in an `i32`.
pub open spec fn page_offset_fits(q: OptionsView) -> bool {
    match (q.limit, q.page) {
        (Some(l), Some(p)) => i32::MIN <= p * l <= i32::MAX,
        _ => true,
    }
}

/// The ordering column, when there is one, may be ordered by.
pub open spec fn order_column_safe(q: OptionsView) -> bool {
    match q.order_by {
        Some(c) => spec_safe_column(c),
        None => true,
    }
}

fn push_text_condition(query: &mut SqlQuery, sql: &str, value: &Option<String>)
    ensures
        final(query)@ == old(query)@ + bound_condition(sql@, text_arg(text_option(*value))),
{
    if let Some(v) = value {
        query.push(sql);
        query.push_bind(SqlArg::Text(v.clone()));
    }
}

fn push_time_condition(query: &mut SqlQuery, sql: &str, value: Option<i64>)
    ensures
        final(query)@ == old(query)@ + bound_condition(sql@, time_arg(value)),
{
    if let Some(t) = value {
        query.push(sql);
        query.push_bind(SqlArg::Timestamp(t));
    }
}

fn push_bool_condition(query: &mut SqlQuery, sql: &str, value: Option<bool>)
    ensures
        final(query)@ == old(query)@ + bound_condition(sql@, bool_arg(value)),
{
    if let Some(b) = value {
        query.push(sql);
        query.push_bind(SqlArg::Bool(b));
    }
}

fn push_int_condition(query: &mut SqlQuery, sql: &str, value: Option<i32>)
    ensures
        final(query)@ == old(query)@ + bound_condition(sql@, int_arg(value)),
{
    if let Some(i) = value {
        query.push(sql);
        query.push_bind(SqlArg::Int(i));
    }
}

fn push_gps_condition(query: &mut SqlQuery, has_gps: Option<bool>)
    ensures
        final(query)@ == old(query)@ + gps_pieces(has_gps),
{
    if let Some(gps) = has_gps {
        if gps {
            query.push(" AND latitude IS NOT NULL AND longitude IS NOT NULL");
        } else {
            query.push(" AND (latitude IS NULL OR longitude IS NULL)");
        }
    }
}

impl MediaQuery {
    /// A query without any setting.
    pub fn new() -> (r: MediaQuery)
        ensures
            r@ == no_options(),
    {
        MediaQuery {
            order_by: None,
            asc: None,
            limit: None,
            page: None,
            filter_path: None,
            filter_not_path: None,
            before: None,
            after: None,
            is_screenshot: None,
            import_id: None,
            has_gps: None,
        }
    }

    /// The query that counts the media this query selects: the same
    /// conditions, without ordering and paging.
    pub fn to_count_query(&self) -> (r: MediaQuery)
        ensures
            r@ == (OptionsView { order_by: None, asc: None, limit: None, page: None, ..self@ }),
    {
        MediaQuery {
            order_by: None,
            asc: None,
            limit: None,
            page: None,
            filter_path: match &self.filter_path { Some(s) => Some(s.clone()), None => None },
            filter_not_path: match &self.filter_not_path { Some(s) => Some(s.clone()), None => None },
            before: self.before,
            after: self.after,
            is_screenshot: self.is_screenshot,
            import_id: self.import_id,
            has_gps: self.has_gps,
        }
    }

    fn push_conditions(&self, query: &mut SqlQuery)
        ensures
            final(query)@ == old(query)@ + condition_pieces(self@),
    {
        let ghost q = self@;
        let ghost p0 = query@;
        push_text_condition(query, " AND path LIKE ", &self.filter_path);
        push_text_condition(query, " AND path NOT LIKE ", &self.filter_not_path);
        let ghost p2 = query@;
        assert(p2 == p0 + bound_condition(" AND path LIKE "@, text_arg(q.filter_path))
            + bound_condition(" AND path NOT LIKE "@, text_arg(q.filter_not_path)));
        push_time_condition(query, " AND created_at < ", self.before);
        push_time_condition(query, " AND created_at > ", self.after);
        let ghost p4 = query@;
        assert(p4 == p2 + bound_condition(" AND created_at < "@, time_arg(q.before))
            + bound_condition(" AND created_at > "@, time_arg(q.after)));
        push_bool_condition(query, " AND is_screenshot = ", self.is_screenshot);
        push_int_condition(query, " AND import_id = ", self.import_id);
        let ghost p6 = query@;
        assert(p6 == p4 + bound_condition(" AND is_screenshot = "@, bool_arg(q.is_screenshot))
            + bound_condition(" AND import_id = "@, int_arg(q.import_id)));
        push_gps_condition(query, self.has_gps);
        assert(query@ == p6 + gps_pieces(q.has_gps));
    }

    fn push_paging(&self, query: &mut SqlQuery)
        requires
            page_offset_fits(self@),
        ensures
            final(query)@ == old(query)@ + match self@.limit {
                Some(l) => seq![PieceView::Text(" LIMIT "@), PieceView::Bind(ArgView::Int(l))] + match self@.page {
                    Some(p) => seq![PieceView::Text(" OFFSET "@), PieceView::Bind(ArgView::Int((p * l) as i32))],
                    None => Seq::empty(),
                },
                None => Seq::empty(),
            },
    {
        let ghost start = query@;
        if let Some(limit) = self.limit {
            query.push(" LIMIT ");
            query.push_bind(SqlArg::Int(limit));
            if let Some(page) = self.page {
                query.push(" OFFSET ");
                query.push_bind(SqlArg::Int(page * limit));
            }
        }
    }

    /// Whether the ordering column, if any, may be ordered by.
    pub fn has_safe_order_column(&self) -> (r: bool)
        ensures
            r == order_column_safe(self@),
    {
        match &self.order_by {
            Some(c) => safe_column(c.as_str()).is_ok(),
            None => true,
        }
    }

    /// Whether the offset of the page fits in an `i32`.
    pub fn has_page_offset_in_range(&self) -> (r: bool)
        ensures
            r == page_offset_fits(self@),
    {
        match (self.limit, self.page) {
            (Some(l), Some(p)) => {
                proof { crate::media_query::sqlize::lemma_i32_product(p, l); }
                let offset = (p as i64) * (l as i64);
                -2147483648 <= offset && offset <= 2147483647
            },
            _ => true,
        }
    }

    /// Adds the settings to `query`: the conditions, then the ordering and
    /// paging. An ordering column that may not be ordered by is an error
    /// naming the column, met after the conditions were added.
    pub fn sqlize(&self, query: &mut SqlQuery) -> (r: Result<(), String>)
        requires
            order_column_safe(self@) ==> page_offset_fits(self@),
        ensures
            match r {
                Ok(()) => order_column_safe(self@)
                    && final(query)@ == old(query)@ + condition_pieces(self@) + order_pieces(self@),
                Err(c) => !order_column_safe(self@) && self@.order_by == Some(c@)
                    && final(query)@ == old(query)@ + condition_pieces(self@),
            },
    {
        self.push_conditions(query);
        let ghost conditions = query@;
        if let Some(order_by) = &self.order_by {
            match safe_column(order_by.as_str()) {
                Ok(()) => {},
                Err(c) => return Err(c),
            }
            query.push(" ORDER BY ");
            let column = concat("media.", order_by.as_str());
            query.push(column.as_str());
        }
        let ghost ordered = query@;
        if let Some(asc) = self.asc {
            query.push(if asc { " ASC" } else { " DESC" });
        }
        let ghost sorted = query@;
        self.push_paging(query);
        assert(query@ == conditions + order_pieces(self@));
        Ok(())
    }
}

impl Default for MediaQuery {
    fn default() -> (r: MediaQuery)
        ensures
            r@ == no_options(),
    {
        MediaQuery::new()
    }
}

/// No piece of `s` is the text `t`.
pub open spec fn lacks_text(s: Seq<PieceView>, t: Seq<char>) -> bool {
    forall|k: int| 0 <= k < s.len() ==> #[trigger] s[k] != PieceView::Text(t)
}

proof fn lemma_lacks_text_concat(a: Seq<PieceView>, b: Seq<PieceView>, t: Seq<char>)
    requires
        lacks_text(a, t),
        lacks_text(b, t),
    ensures
        lacks_text(a + b, t),
{
    assert forall|k: int| 0 <= k < (a + b).len() implies #[trigger] (a + b)[k] != PieceView::Text(t) by {
        if k < a.len() {
            assert((a + b)[k] == a[k]);
        } else {
            assert((a + b)[k] == b[k - a.len()]);
        }
    }
}

proof fn lemma_bound_condition_lacks(sql: Seq<char>, arg: Option<ArgView>, t: Seq<char>)
    requires
        sql != t,
    ensures
        lacks_text(bound_condition(sql, arg), t),
{
}

/// The conditions other than the time bounds never hold the text of a time
/// bound.
proof fn lemma_time_texts_distinct(q: OptionsView, t: Seq<char>)
    requires
        t == " AND created_at > "@ || t == " AND created_at < "@,
    ensures
        lacks_text(bound_condition(" AND path LIKE "@, text_arg(q.filter_path)), t),
        lacks_text(bound_condition(" AND path NOT LIKE "@, text_arg(q.filter_not_path)), t),
        lacks_text(bound_condition(" AND is_screenshot = "@, bool_arg(q.is_screenshot)), t),
        lacks_text(bound_condition(" AND import_id = "@, int_arg(q.import_id)), t),
        lacks_text(gps_pieces(q.has_gps), t),
{
    reveal_strlit(" AND created_at > ");
    reveal_strlit(" AND created_at < ");
    reveal_strlit(" AND path LIKE ");
    reveal_strlit(" AND path NOT LIKE ");
    reveal_strlit(" AND is_screenshot = ");
    reveal_strlit(" AND import_id = ");
    reveal_strlit(" AND latitude IS NOT NULL AND longitude IS NOT NULL");
    reveal_strlit(" AND (latitude IS NULL OR longitude IS NULL)");
    assert(t.len() == 18);
    assert(" AND path LIKE "@.len() == 15);
    assert(" AND path NOT LIKE "@.len() == 19);
    assert(" AND is_screenshot = "@.len() == 21);
    assert(" AND import_id = "@.len() == 17);
    lemma_bound_condition_lacks(" AND path LIKE "@, text_arg(q.filter_path), t);
    lemma_bound_condition_lacks(" AND path NOT LIKE "@, text_arg(q.filter_not_path), t);
    lemma_bound_condition_lacks(" AND is_screenshot = "@, bool_arg(q.is_screenshot), t);
    lemma_bound_condition_lacks(" AND import_id = "@, int_arg(q.import_id), t);
}

/// `before` and `after` bound the creation time from opposite sides: with
/// `after = Some(t)` the conditions keep only media created strictly later
/// than `t` (` AND created_at > ` with `t` bound), with `before = Some(t)`
/// only media created strictly earlier (` AND created_at < ` with `t` bound),
/// and neither comparison appears without its setting.
pub proof fn lemma_time_bounds_are_opposite(q: OptionsView)
    ensures
        q.after matches Some(t) ==> exists|k: int| 0 <= k && k + 1 < condition_pieces(q).len()
            && #[trigger] condition_pieces(q)[k] == PieceView::Text(" AND created_at > "@)
            && condition_pieces(q)[k + 1] == PieceView::Bind(ArgView::Timestamp(t)),
        q.before matches Some(t) ==> exists|k: int| 0 <= k && k + 1 < condition_pieces(q).len()
            && #[trigger] condition_pieces(q)[k] == PieceView::Text(" AND created_at < "@)
            && condition_pieces(q)[k + 1] == PieceView::Bind(ArgView::Timestamp(t)),
        q.after is None ==> lacks_text(condition_pieces(q), " AND created_at > "@),
        q.before is None ==> lacks_text(condition_pieces(q), " AND created_at < "@),
{
    let a = bound_condition(" AND path LIKE "@, text_arg(q.filter_path));
    let b = bound_condition(" AND path NOT LIKE "@, text_arg(q.filter_not_path));
    let c = bound_condition(" AND created_at < "@, time_arg(q.before));
    let d = bound_condition(" AND created_at > "@, time_arg(q.after));
    let e = bound_condition(" AND is_screenshot = "@, bool_arg(q.is_screenshot));
    let f = bound_condition(" AND import_id = "@, int_arg(q.import_id));
    let g = gps_pieces(q.has_gps);
    let all = condition_pieces(q);
    assert(all == a + b + c + d + e + f + g);
    reveal_strlit(" AND created_at > ");
    reveal_strlit(" AND created_at < ");
    assert(" AND created_at > "@ != " AND created_at < "@) by {
        assert(" AND created_at > "@[16] != " AND created_at < "@[16]);
    }
    let gt = " AND created_at > "@;
    let lt = " AND created_at < "@;
    lemma_time_texts_distinct(q, gt);
    lemma_time_texts_distinct(q, lt);
    if let Some(t) = q.after {
        let k = (a.len() + b.len() + c.len()) as int;
        assert(all[k] == d[0]);
        assert(all[k + 1] == d[1]);
    }
    if let Some(t) = q.before {
        let k = (a.len() + b.len()) as int;
        assert(all[k] == c[0]);
        assert(all[k + 1] == c[1]);
    }
    if q.after is None {
        lemma_bound_condition_lacks(lt, time_arg(q.before), gt);
        assert(lacks_text(d, gt));
        lemma_lacks_text_concat(a, b, gt);
        lemma_lacks_text_concat(a + b, c, gt);
        lemma_lacks_text_concat(a + b + c, d, gt);
        lemma_lacks_text_concat(a + b + c + d, e, gt);
        lemma_lacks_text_concat(a + b + c + d + e, f, gt);
        lemma_lacks_text_concat(a + b + c + d + e + f, g, gt);
    }
    if q.before is None {
        lemma_bound_condition_lacks(gt, time_arg(q.after), lt);
        assert(lacks_text(c, lt));
        lemma_lacks_text_concat(a, b, lt);
        lemma_lacks_text_concat(a + b, c, lt);
        lemma_lacks_text_concat(a + b + c, d, lt);
        lemma_lacks_text_concat(a + b + c + d, e, lt);
        lemma_lacks_text_concat(a + b + c + d + e, f, lt);
        lemma_lacks_text_concat(a + b + c + d + e + f, g, lt);
    }
}

} // verus!
