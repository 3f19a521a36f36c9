use vstd::prelude::*;
use crate::media_query::MediaQuery;
use crate::media_query::options::{condition_pieces, order_pieces, page_offset_fits, order_column_safe};
use crate::media_query::values::{parse_i32, spec_parse_i32};
use crate::sql::{SqlQuery, PieceView};
use crate::text::{chars_of, concat};

verus! {

/// The pieces of `s` between the occurrences of `c`, as `str::split` gives
/// them (empty pieces included, at least one piece).
pub open spec fn split_on(s: Seq<char>, c: char) -> Seq<Seq<char>>
    decreases s.len(),
{
    if s.len() == 0 {
        seq![Seq::empty()]
    } else {
        let prev = split_on(s.drop_last(), c);
        if s.last() == c {
            prev.push(Seq::empty())
        } else {
            prev.update(prev.len() - 1, prev.last().push(s.last()))
        }
    }
}

pub open spec fn char_views(v: Seq<Vec<char>>) -> Seq<Seq<char>> {
    v.map_values(|p: Vec<char>| p@)
}

/// The pieces of `cs` between the occurrences of `c`.
pub fn split_chars(cs: &[char], c: char) -> (r: Vec<Vec<char>>)
    ensures
        char_views(r@) == split_on(cs@, c),
{
    let mut done: Vec<Vec<char>> = Vec::new();
    let mut cur: Vec<char> = Vec::new();
    let mut i: usize = 0;
    assert(cs@.take(0).len() == 0);
    assert(split_on(cs@.take(0), c) == char_views(done@).push(cur@));
    while i < cs.len()
        invariant
            i <= cs@.len(),
            split_on(cs@.take(i as int), c) == char_views(done@).push(cur@),
        decreases cs.len() - i,
    {
        let ghost prev = split_on(cs@.take(i as int), c);
        assert(cs@.take(i + 1).drop_last() == cs@.take(i as int));
        assert(cs@.take(i + 1).last() == cs@[i as int]);
        if cs[i] == c {
            let ghost before = char_views(done@);
            done.push(cur);
            cur = Vec::new();
            assert(char_views(done@) == before.push(prev.last()));
            assert(prev == before.push(prev.last()));
        } else {
            let ghost before = char_views(done@);
            cur.push(cs[i]);
        }
        i = i + 1;
    }
    assert(cs@.take(cs.len() as int) == cs@);
    let ghost before = char_views(done@);
    done.push(cur);
    assert(char_views(done@) == before.push(cur@));
    done
}

/// The number of media created in a month.
#[derive(Debug)]
pub struct TimelineMonth {
    pub year: i32,
    pub month: i32,
    pub count: i32,
}

/// The number of media created on a day.
#[derive(Debug)]
pub struct TimelineDay {
    pub year: i32,
    pub month: i32,
    pub day: i32,
    pub count: i32,
}

/// The number of media created in an hour.
#[derive(Debug)]
pub struct TimelineHour {
    pub year: i32,
    pub month: i32,
    pub day: i32,
    pub hour: i32,
    pub count: i32,
}

/// The numbers in the first `n` pieces of `s` split at `c`, when there are
/// that many pieces and each is an `i32`.
pub open spec fn leading_numbers(s: Seq<char>, c: char, n: int) -> Option<Seq<i32>> {
    let ps = split_on(s, c);
    if ps.len() < n {
        None
    } else if exists|k: int| 0 <= k < n && #[trigger] spec_parse_i32(ps[k]) is None {
        None
    } else {
        Some(Seq::new(n as nat, |k: int| spec_parse_i32(ps[k])->0))
    }
}

/// Reads the first `n` pieces of `cs` split at `c` as numbers.
fn read_numbers(cs: &[char], c: char, n: usize) -> (r: Option<Vec<i32>>)
    ensures
        match r {
            Some(v) => leading_numbers(cs@, c, n as int) == Some(v@),
            None => leading_numbers(cs@, c, n as int) is None,
        },
{
    let ps = split_chars(cs, c);
    let ghost pv = split_on(cs@, c);
    if ps.len() < n {
        return None;
    }
    let mut out: Vec<i32> = Vec::new();
    let mut k: usize = 0;
    while k < n
        invariant
            k <= n <= ps@.len(),
            pv == split_on(cs@, c),
            pv == char_views(ps@),
            out@.len() == k,
            forall|j: int| 0 <= j < k ==> spec_parse_i32(#[trigger] pv[j]) == Some(out@[j]),
        decreases n - k,
    {
        assert(pv[k as int] == ps@[k as int]@);
        match parse_i32(ps[k].as_slice()) {
            Some(v) => out.push(v),
            None => return None,
        }
        k = k + 1;
    }
    assert(out@ == Seq::new(n as nat, |k: int| spec_parse_i32(pv[k])->0));
    Some(out)
}

/// The month of an interval `<year>-<month>` (more pieces are ignored).
pub open spec fn spec_month_of(interval: Seq<char>) -> Option<(i32, i32)> {
    match leading_numbers(interval, '-', 2) {
        Some(v) => Some((v[0], v[1])),
        None => None,
    }
}

/// The day of an interval `<year>-<month>-<day>`.
pub open spec fn spec_day_of(interval: Seq<char>) -> Option<(i32, i32, i32)> {
    match leading_numbers(interval, '-', 3) {
        Some(v) => Some((v[0], v[1], v[2])),
        None => None,
    }
}

/// The hour of an interval `<year>-<month>-<day> <hour>`.
pub open spec fn spec_hour_of(interval: Seq<char>) -> Option<(i32, i32, i32, i32)> {
    let halves = split_on(interval, ' ');
    if halves.len() < 2 {
        None
    } else {
        match (leading_numbers(halves[0], '-', 3), spec_parse_i32(halves[1])) {
            (Some(v), Some(h)) => Some((v[0], v[1], v[2], h)),
            _ => None,
        }
    }
}

impl TimelineMonth {
    /// The month of an interval such as `2024-01`, with its count; `None`
    /// where the interval does not hold two numbers separated by `-`.
    pub fn from_interval(interval: &str, count: i32) -> (r: Option<TimelineMonth>)
        ensures
            match r {
                Some(t) => spec_month_of(interval@) == Some((t.year, t.month)) && t.count == count,
                None => spec_month_of(interval@) is None,
            },
    {
        let cs = chars_of(interval);
        match read_numbers(cs.as_slice(), '-', 2) {
            Some(v) => Some(TimelineMonth { year: v[0], month: v[1], count }),
            None => None,
        }
    }
}

impl TimelineDay {
    /// The day of an interval such as `2024-01-01`, with its count.
    pub fn from_interval(interval: &str, count: i32) -> (r: Option<TimelineDay>)
        ensures
            match r {
                Some(t) => spec_day_of(interval@) == Some((t.year, t.month, t.day)) && t.count == count,
                None => spec_day_of(interval@) is None,
            },
    {
        let cs = chars_of(interval);
        match read_numbers(cs.as_slice(), '-', 3) {
            Some(v) => Some(TimelineDay { year: v[0], month: v[1], day: v[2], count }),
            None => None,
        }
    }
}

impl TimelineHour {
    /// The hour of an interval such as `2024-01-01 00`, with its count.
    pub fn from_interval(interval: &str, count: i32) -> (r: Option<TimelineHour>)
        ensures
            match r {
                Some(t) => spec_hour_of(interval@) == Some((t.year, t.month, t.day, t.hour)) && t.count == count,
                None => spec_hour_of(interval@) is None,
            },
    {
        let cs = chars_of(interval);
        let halves = split_chars(cs.as_slice(), ' ');
        if halves.len() < 2 {
            return None;
        }
        let ghost hv = split_on(interval@, ' ');
        assert(hv[0] == halves@[0]@ && hv[1] == halves@[1]@);
        match (read_numbers(halves[0].as_slice(), '-', 3), parse_i32(halves[1].as_slice())) {
            (Some(v), Some(h)) => Some(TimelineHour { year: v[0], month: v[1], day: v[2], hour: h, count }),
            _ => None,
        }
    }
}

/// How the timeline groups media by their creation time.
pub struct Timeline;

/// The start of a timeline query, grouping by `interval_query`.
pub open spec fn timeline_select(interval_query: Seq<char>) -> Seq<char> {
    "SELECT\n                    "@ + interval_query
        + " AS interval,\n                    COUNT(*) AS count\n                 FROM media "@
}

/// The whole timeline query: the count of the selected media per interval,
/// in the order of the intervals.
pub open spec fn timeline_pieces(q: crate::media_query::options::OptionsView, interval_query: Seq<char>) -> Seq<PieceView> {
    seq![PieceView::Text(timeline_select(interval_query))]
        + condition_pieces(q) + order_pieces(q)
        + seq![PieceView::Text(" GROUP BY interval ORDER BY interval ASC"@)]
}

pub open spec fn month_interval() -> Seq<char> {
    "STRFTIME('%Y-%m', media.created_at)"@
}

pub open spec fn day_interval() -> Seq<char> {
    "STRFTIME('%Y-%m-%d', media.created_at)"@
}

pub open spec fn hour_interval() -> Seq<char> {
    "STRFTIME('%Y-%m-%d %H', media.created_at)"@
}

impl Timeline {
    /// The query that counts the media of `media_query` per interval of
    /// their creation time, `interval_query` being the SQL of the interval.
    pub fn timeline_query(media_query: &MediaQuery, interval_query: &str) -> (r: SqlQuery)
        requires
            page_offset_fits(media_query@),
            order_column_safe(media_query@),
        ensures
            r@ == timeline_pieces(media_query@, interval_query@),
    {
        let a = concat("SELECT\n                    ", interval_query);
        let select = concat(a.as_str(), " AS interval,\n                    COUNT(*) AS count\n                 FROM media ");
        let mut query = SqlQuery::new(select.as_str());
        let r = media_query.sqlize(&mut query);
        assert(r is Ok);
        query.push(" GROUP BY interval ORDER BY interval ASC");
        query
    }

    /// The timeline query by month (`2024-01`).
    pub fn months_query(media_query: &MediaQuery) -> (r: SqlQuery)
        requires
            page_offset_fits(media_query@),
            order_column_safe(media_query@),
        ensures
            r@ == timeline_pieces(media_query@, month_interval()),
    {
        Timeline::timeline_query(media_query, "STRFTIME('%Y-%m', media.created_at)")
    }

    /// The timeline query by day (`2024-01-01`).
    pub fn days_query(media_query: &MediaQuery) -> (r: SqlQuery)
        requires
            page_offset_fits(media_query@),
            order_column_safe(media_query@),
        ensures
            r@ == timeline_pieces(media_query@, day_interval()),
    {
        Timeline::timeline_query(media_query, "STRFTIME('%Y-%m-%d', media.created_at)")
    }

    /// The timeline query by hour (`2024-01-01 00`).
    pub fn hours_query(media_query: &MediaQuery) -> (r: SqlQuery)
        requires
            page_offset_fits(media_query@),
            order_column_safe(media_query@),
        ensures
            r@ == timeline_pieces(media_query@, hour_interval()),
    {
        Timeline::timeline_query(media_query, "STRFTIME('%Y-%m-%d %H', media.created_at)")
    }
}

} // verus!
