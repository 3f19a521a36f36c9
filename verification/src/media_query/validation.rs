use vstd::prelude::*;
use crate::media_query::dsl::{DSLBool, DSLInteger, DSLString};
use crate::media_query::media_query::{Field, DslOp, ValueView, FilterView, MediaQueryType, filter_views};
use crate::models::media::{safe_column, spec_safe_column};

verus! {

/// Why a media query was refused.
#[derive(Debug)]
pub enum MediaQueryError {
    /// `order_by` names a column that a query may not order by.
    UnknownColumn(String),
    /// One of `order_by`, `asc`, `limit`, `page` appears twice.
    DuplicateFilter(MediaQueryType),
    /// The first filter came after the second, which must end the query.
    InvalidFilterOrder(MediaQueryType, MediaQueryType),
    /// `order_by`, `asc`, `limit` and `page` only take the `=` operator.
    InvalidOperator(MediaQueryType),
    /// `page` without `limit`.
    InvalidPage,
}

/// A refusal as the contracts see it.
pub enum ErrorView {
    UnknownColumn(Seq<char>),
    DuplicateFilter(FilterView),
    InvalidFilterOrder(FilterView, FilterView),
    InvalidOperator(FilterView),
    InvalidPage,
}

impl View for MediaQueryError {
    type V = ErrorView;

    open spec fn view(&self) -> ErrorView {
        match self {
            MediaQueryError::UnknownColumn(c) => ErrorView::UnknownColumn(c@),
            MediaQueryError::DuplicateFilter(f) => ErrorView::DuplicateFilter(f@),
            MediaQueryError::InvalidFilterOrder(f, g) => ErrorView::InvalidFilterOrder(f@, g@),
            MediaQueryError::InvalidOperator(f) => ErrorView::InvalidOperator(f@),
            MediaQueryError::InvalidPage => ErrorView::InvalidPage,
        }
    }
}

/// The fields that shape the result rather than select media (`order_by`,
/// `asc`, `limit`, `page`), numbered in that order.
pub open spec fn paging_slot(f: Field) -> Option<int> {
    if f == Field::OrderBy {
        Some(0)
    } else if f == Field::Asc {
        Some(1)
    } else if f == Field::Limit {
        Some(2)
    } else if f == Field::Page {
        Some(3)
    } else {
        None
    }
}

pub open spec fn is_paging(f: Field) -> bool {
    paging_slot(f) is Some
}

/// The column that an `order_by` filter names.
pub open spec fn order_column(f: FilterView) -> Seq<char> {
    match f.value {
        ValueView::Str(s) => s,
        _ => Seq::empty(),
    }
}

/// Whether the filter's operator is `=`.
pub open spec fn has_equal_op(f: FilterView) -> bool {
    match f.op {
        DslOp::Str(o) => o == DSLString::Equal,
        DslOp::Bool(o) => o == DSLBool::Equal,
        DslOp::Integer(o) => o == DSLInteger::Equal,
        _ => true,
    }
}

/// The position of the first `page` filter at or after `i` (the length of
/// `fs` when there is none).
pub open spec fn page_index_from(fs: Seq<FilterView>, i: int) -> int
    decreases fs.len() - i,
{
    if i < 0 || i >= fs.len() {
        fs.len() as int
    } else if fs[i].field == Field::Page {
        i
    } else {
        page_index_from(fs, i + 1)
    }
}

/// The first `page` filter of the query.
pub open spec fn first_page(fs: Seq<FilterView>) -> FilterView {
    fs[page_index_from(fs, 0)]
}

/// What validation has gathered after some filters: which of the four
/// shaping fields it has seen, and the first shaping filter.
pub struct CheckState {
    pub seen: Seq<bool>,
    pub first_shaping: Option<FilterView>,
}

pub open spec fn initial_check() -> CheckState {
    CheckState { seen: seq![false, false, false, false], first_shaping: None }
}

/// Validation of one more filter `f` of the query `all`.
pub open spec fn check_step(st: CheckState, f: FilterView, all: Seq<FilterView>) -> Result<CheckState, ErrorView> {
    match paging_slot(f.field) {
        Some(k) => {
            let first = if st.first_shaping is None { Some(f) } else { st.first_shaping };
            if st.seen[k] {
                Err(ErrorView::DuplicateFilter(f))
            } else if st.seen[3] && k != 3 {
                Err(ErrorView::InvalidFilterOrder(f, first_page(all)))
            } else if f.field == Field::OrderBy && !spec_safe_column(order_column(f)) {
                Err(ErrorView::UnknownColumn(order_column(f)))
            } else if !has_equal_op(f) {
                Err(ErrorView::InvalidOperator(f))
            } else {
                Ok(CheckState { seen: st.seen.update(k, true), first_shaping: first })
            }
        },
        None => match st.first_shaping {
            Some(p) => Err(ErrorView::InvalidFilterOrder(f, p)),
            None => Ok(st),
        },
    }
}

/// Validation of the first `n` filters of `fs`, in order.
pub open spec fn check_prefix(fs: Seq<FilterView>, n: nat) -> Result<CheckState, ErrorView>
    decreases n,
{
    if n == 0 || n > fs.len() {
        Ok(initial_check())
    } else {
        match check_prefix(fs, (n - 1) as nat) {
            Err(e) => Err(e),
            Ok(st) => check_step(st, fs[n - 1], fs),
        }
    }
}

/// What validating the filters `fs` gives: the first problem met while
/// reading them in order, or, at the end, a `page` without a `limit`.
pub open spec fn spec_validate(fs: Seq<FilterView>) -> Result<(), ErrorView> {
    match check_prefix(fs, fs.len()) {
        Err(e) => Err(e),
        Ok(st) => if st.seen[3] && !st.seen[2] {
            Err(ErrorView::InvalidPage)
        } else {
            Ok(())
        },
    }
}

/// The rules of a well-formed query, said of the filters all at once.
pub open spec fn is_valid_query(fs: Seq<FilterView>) -> bool {
    &&& valid_upto(fs, fs.len() as int)
    &&& (exists|i: int| 0 <= i < fs.len() && fs[i].field == Field::Page)
        ==> (exists|j: int| 0 <= j < fs.len() && fs[j].field == Field::Limit)
}

/// The rules that the first `n` filters keep: shaping filters come after
/// all the others, none of them twice, `page` is last, `order_by` names a
/// safe column, and shaping filters use `=`.
pub open spec fn valid_upto(fs: Seq<FilterView>, n: int) -> bool {
    &&& forall|i: int, j: int| 0 <= i < j < n && #[trigger] is_paging(fs[i].field) ==> #[trigger] is_paging(fs[j].field)
    &&& forall|i: int, j: int| 0 <= i < j < n && #[trigger] is_paging(fs[i].field) && #[trigger] is_paging(fs[j].field) ==> fs[i].field != fs[j].field
    &&& forall|i: int| 0 <= i && i + 1 < n ==> #[trigger] fs[i].field != Field::Page
    &&& forall|i: int| 0 <= i < n && #[trigger] fs[i].field == Field::OrderBy ==> spec_safe_column(order_column(fs[i]))
    &&& forall|i: int| 0 <= i < n && #[trigger] is_paging(fs[i].field) ==> has_equal_op(fs[i])
}

proof fn lemma_slot_injective(a: Field, b: Field)
    requires
        paging_slot(a) is Some,
        paging_slot(a) == paging_slot(b),
    ensures
        a == b,
{
}

/// What validation has gathered after `n` filters, when it has not failed.
pub open spec fn state_matches(fs: Seq<FilterView>, n: int, st: CheckState) -> bool {
    &&& st.seen.len() == 4
    &&& forall|k: int| 0 <= k < 4 ==> (st.seen[k] <==> exists|i: int| 0 <= i < n && #[trigger] paging_slot(fs[i].field) == Some(k))
    &&& match st.first_shaping {
        None => forall|i: int| 0 <= i < n ==> !#[trigger] is_paging(fs[i].field),
        Some(p) => exists|i: int| 0 <= i < n && #[trigger] is_paging(fs[i].field) && fs[i] == p,
    }
}

proof fn lemma_step_shaping(fs: Seq<FilterView>, m: int, st: CheckState, k: int)
    requires
        0 <= m < fs.len(),
        valid_upto(fs, m),
        state_matches(fs, m, st),
        paging_slot(fs[m].field) == Some(k),
    ensures
        (check_step(st, fs[m], fs) is Ok) <==> valid_upto(fs, m + 1),
        check_step(st, fs[m], fs) matches Ok(st2) ==> state_matches(fs, m + 1, st2),
{
    let f = fs[m];
    let n = m + 1;
    if st.seen[k] {
        let i = choose|i: int| 0 <= i < m && #[trigger] paging_slot(fs[i].field) == Some(k);
        lemma_slot_injective(fs[i].field, f.field);
        assert(is_paging(fs[i].field));
        assert(!valid_upto(fs, n));
    } else if st.seen[3] && k != 3 {
        let i = choose|i: int| 0 <= i < m && #[trigger] paging_slot(fs[i].field) == Some(3int);
        assert(fs[i].field == Field::Page);
        assert(!valid_upto(fs, n));
    } else if f.field == Field::OrderBy && !spec_safe_column(order_column(f)) {
        assert(!valid_upto(fs, n));
    } else if !has_equal_op(f) {
        assert(is_paging(fs[m].field));
        assert(!valid_upto(fs, n));
    } else {
        lemma_step_shaping_accepted(fs, m, st, k);
    }
}

#[verifier::rlimit(60)]
proof fn lemma_step_shaping_accepted(fs: Seq<FilterView>, m: int, st: CheckState, k: int)
    requires
        0 <= m < fs.len(),
        valid_upto(fs, m),
        state_matches(fs, m, st),
        paging_slot(fs[m].field) == Some(k),
        !st.seen[k],
        !(st.seen[3] && k != 3),
        !(fs[m].field == Field::OrderBy && !spec_safe_column(order_column(fs[m]))),
        has_equal_op(fs[m]),
    ensures
        check_step(st, fs[m], fs) is Ok,
        valid_upto(fs, m + 1),
        check_step(st, fs[m], fs) matches Ok(st2) ==> state_matches(fs, m + 1, st2),
{
    let f = fs[m];
    let n = m + 1;
    {
        let st2 = CheckState {
            seen: st.seen.update(k, true),
            first_shaping: if st.first_shaping is None { Some(f) } else { st.first_shaping },
        };
        assert(check_step(st, f, fs) == Ok::<CheckState, ErrorView>(st2));
        assert forall|i: int, j: int| 0 <= i < j < n && #[trigger] is_paging(fs[i].field) && #[trigger] is_paging(fs[j].field)
            implies fs[i].field != fs[j].field by {
            if j == m && fs[i].field == fs[j].field {
                assert(paging_slot(fs[i].field) == Some(k));
            }
        }
        assert forall|i: int| 0 <= i && i + 1 < n implies #[trigger] fs[i].field != Field::Page by {
            if fs[i].field == Field::Page {
                assert(paging_slot(fs[i].field) == Some(3int));
            }
        }
        assert forall|i: int, j: int| 0 <= i < j < n && #[trigger] is_paging(fs[i].field)
            implies #[trigger] is_paging(fs[j].field) by {
            if j == m {
                assert(is_paging(fs[m].field));
            }
        }
        assert(valid_upto(fs, n));
        assert forall|k2: int| 0 <= k2 < 4 implies (st2.seen[k2] <==> exists|i: int| 0 <= i < n && #[trigger] paging_slot(fs[i].field) == Some(k2)) by {
            if k2 == k {
                assert(paging_slot(fs[m].field) == Some(k2));
            } else if exists|i: int| 0 <= i < n && #[trigger] paging_slot(fs[i].field) == Some(k2) {
                let i = choose|i: int| 0 <= i < n && #[trigger] paging_slot(fs[i].field) == Some(k2);
                assert(i < m);
            }
        }
        match st.first_shaping {
            None => {
                assert(is_paging(fs[m].field) && fs[m] == f);
            },
            Some(p) => {
                let i = choose|i: int| 0 <= i < m && #[trigger] is_paging(fs[i].field) && fs[i] == p;
                assert(0 <= i < n && is_paging(fs[i].field) && fs[i] == p);
            },
        }
        assert(state_matches(fs, n, st2));
    }
}

#[verifier::rlimit(60)]
proof fn lemma_step_selecting(fs: Seq<FilterView>, m: int, st: CheckState)
    requires
        0 <= m < fs.len(),
        valid_upto(fs, m),
        state_matches(fs, m, st),
        paging_slot(fs[m].field) is None,
    ensures
        (check_step(st, fs[m], fs) is Ok) <==> valid_upto(fs, m + 1),
        check_step(st, fs[m], fs) matches Ok(st2) ==> state_matches(fs, m + 1, st2),
{
    let n = m + 1;
    match st.first_shaping {
        Some(p) => {
            let i = choose|i: int| 0 <= i < m && #[trigger] is_paging(fs[i].field) && fs[i] == p;
            assert(!is_paging(fs[m].field));
            assert(!valid_upto(fs, n));
        },
        None => {
            assert(check_step(st, fs[m], fs) == Ok::<CheckState, ErrorView>(st));
            assert forall|i: int, j: int| 0 <= i < j < n && #[trigger] is_paging(fs[i].field)
                implies #[trigger] is_paging(fs[j].field) by {
                assert(!is_paging(fs[i].field));
            }
            assert forall|i: int, j: int| 0 <= i < j < n && #[trigger] is_paging(fs[i].field) && #[trigger] is_paging(fs[j].field)
                implies fs[i].field != fs[j].field by {
                assert(!is_paging(fs[i].field));
            }
            assert forall|i: int| 0 <= i && i + 1 < n implies #[trigger] fs[i].field != Field::Page by {
                assert(!is_paging(fs[i].field));
            }
            assert(valid_upto(fs, n));
            assert forall|k2: int| 0 <= k2 < 4 implies (st.seen[k2] <==> exists|i: int| 0 <= i < n && #[trigger] paging_slot(fs[i].field) == Some(k2)) by {
                if exists|i: int| 0 <= i < n && #[trigger] paging_slot(fs[i].field) == Some(k2) {
                    let i = choose|i: int| 0 <= i < n && #[trigger] paging_slot(fs[i].field) == Some(k2);
                    assert(i < m);
                }
            }
            assert(state_matches(fs, n, st));
        },
    }
}

proof fn lemma_check_prefix(fs: Seq<FilterView>, n: nat)
    requires
        n <= fs.len(),
    ensures
        (check_prefix(fs, n) is Ok) <==> valid_upto(fs, n as int),
        check_prefix(fs, n) matches Ok(st) ==> state_matches(fs, n as int, st),
    decreases n,
{
    if n == 0 {
        assert(state_matches(fs, 0, initial_check()));
    } else {
        let m = (n - 1) as nat;
        lemma_check_prefix(fs, m);
        match check_prefix(fs, m) {
            Err(e) => {
                assert(!valid_upto(fs, n as int)) by {
                    if valid_upto(fs, n as int) {
                        assert(valid_upto(fs, m as int));
                    }
                }
            },
            Ok(st) => {
                match paging_slot(fs[m as int].field) {
                    Some(k) => lemma_step_shaping(fs, m as int, st, k),
                    None => lemma_step_selecting(fs, m as int, st),
                }
            },
        }
    }
}

/// A query passes validation exactly when it keeps the rules: the filters
/// `order_by`, `asc`, `limit` and `page` come after all others, each at most
/// once, `page` last of all and only with `limit`, each with `=`, and
/// `order_by` names a column that may be ordered by.
pub proof fn lemma_validate_accepts_exactly_valid_queries(fs: Seq<FilterView>)
    ensures
        (spec_validate(fs) is Ok) <==> is_valid_query(fs),
{
    lemma_check_prefix(fs, fs.len());
    match check_prefix(fs, fs.len()) {
        Err(e) => {},
        Ok(st) => {
            if exists|i: int| 0 <= i < fs.len() && fs[i].field == Field::Page {
                let i = choose|i: int| 0 <= i < fs.len() && fs[i].field == Field::Page;
                assert(paging_slot(fs[i].field) == Some(3int));
            }
            if st.seen[3] {
                let i = choose|i: int| 0 <= i < fs.len() && #[trigger] paging_slot(fs[i].field) == Some(3int);
                assert(fs[i].field == Field::Page);
            }
            if exists|j: int| 0 <= j < fs.len() && fs[j].field == Field::Limit {
                let j = choose|j: int| 0 <= j < fs.len() && fs[j].field == Field::Limit;
                assert(paging_slot(fs[j].field) == Some(2int));
            }
            if st.seen[2] {
                let j = choose|j: int| 0 <= j < fs.len() && #[trigger] paging_slot(fs[j].field) == Some(2int);
                assert(fs[j].field == Field::Limit);
            }
        },
    }
}

/// A failure in validating the first `n` filters is the failure of the
/// whole validation.
proof fn lemma_check_error_stays(fs: Seq<FilterView>, n: nat, e: ErrorView)
    requires
        n <= fs.len(),
        check_prefix(fs, n) == Err::<CheckState, ErrorView>(e),
    ensures
        check_prefix(fs, fs.len()) == Err::<CheckState, ErrorView>(e),
    decreases fs.len() - n,
{
    if n < fs.len() {
        lemma_check_error_stays(fs, n + 1, e);
    }
}

/// The position of the first `page` filter among `fs`.
fn find_first_page(fs: &Vec<MediaQueryType>) -> (r: usize)
    requires
        exists|i: int| 0 <= i < fs@.len() && fs@[i]@.field == Field::Page,
    ensures
        r < fs@.len(),
        filter_views(fs@)[r as int] == first_page(filter_views(fs@)),
{
    let ghost fvs = filter_views(fs@);
    let mut i: usize = 0;
    while i < fs.len()
        invariant
            i <= fs@.len(),
            fvs == filter_views(fs@),
            forall|j: int| 0 <= j < i ==> fvs[j].field != Field::Page,
            page_index_from(fvs, 0) == page_index_from(fvs, i as int),
            exists|j: int| 0 <= j < fs@.len() && fs@[j]@.field == Field::Page,
        decreases fs.len() - i,
    {
        if fs[i].field() == Field::Page {
            return i;
        }
        assert(page_index_from(fvs, i as int) == page_index_from(fvs, i + 1));
        i = i + 1;
    }
    proof {
        let j = choose|j: int| 0 <= j < fs@.len() && fs@[j]@.field == Field::Page;
        assert(fvs[j].field == Field::Page);
    }
    0
}

/// Checks the order and form of the filters, as `MediaQuery::validate` does.
pub fn validate_filters(fs: &Vec<MediaQueryType>) -> (r: Result<(), MediaQueryError>)
    ensures
        match r {
            Ok(()) => spec_validate(filter_views(fs@)) == Ok::<(), ErrorView>(()),
            Err(e) => spec_validate(filter_views(fs@)) == Err::<(), ErrorView>(e@),
        },
{
    let ghost fvs = filter_views(fs@);
    let mut seen: Vec<bool> = Vec::new();
    seen.push(false);
    seen.push(false);
    seen.push(false);
    seen.push(false);
    let mut first: Option<usize> = None;
    let mut i: usize = 0;
    assert(seen@ == seq![false, false, false, false]);
    while i < fs.len()
        invariant
            i <= fs@.len(),
            fvs == filter_views(fs@),
            seen@.len() == 4,
            first matches Some(p) ==> p < i,
            check_prefix(fvs, i as nat) == Ok::<CheckState, ErrorView>(CheckState {
                seen: seen@,
                first_shaping: match first { Some(p) => Some(fvs[p as int]), None => None },
            }),
        decreases fs.len() - i,
    {
        let ghost st = CheckState {
            seen: seen@,
            first_shaping: match first { Some(p) => Some(fvs[p as int]), None => None },
        };
        let f = &fs[i];
        assert(fvs[i as int] == f@);
        assert(check_prefix(fvs, (i + 1) as nat) == check_step(st, f@, fvs));
        let slot: Option<usize> = match f {
            MediaQueryType::OrderBy(..) => Some(0),
            MediaQueryType::Asc(..) => Some(1),
            MediaQueryType::Limit(..) => Some(2),
            MediaQueryType::Page(..) => Some(3),
            _ => None,
        };
        match slot {
            Some(k) => {
                if first.is_none() {
                    first = Some(i);
                }
                if seen[k] {
                    let e = MediaQueryError::DuplicateFilter(f.duplicate());
                    proof { lemma_check_error_stays(fvs, (i + 1) as nat, e@); }
                    return Err(e);
                }
                if seen[3] && k != 3 {
                    proof {
                        lemma_check_prefix(fvs, i as nat);
                        let j = choose|j: int| 0 <= j < i && #[trigger] paging_slot(fvs[j].field) == Some(3int);
                        assert(fs@[j]@.field == Field::Page);
                    }
                    let p = find_first_page(fs);
                    let e = MediaQueryError::InvalidFilterOrder(f.duplicate(), fs[p].duplicate());
                    proof { lemma_check_error_stays(fvs, (i + 1) as nat, e@); }
                    return Err(e);
                }
                if let MediaQueryType::OrderBy(_, column) = f {
                    match safe_column(column.as_str()) {
                        Ok(()) => {},
                        Err(_) => {
                            let e = MediaQueryError::UnknownColumn(column.clone());
                            proof { lemma_check_error_stays(fvs, (i + 1) as nat, e@); }
                            return Err(e);
                        },
                    }
                }
                let equal_op = match f {
                    MediaQueryType::OrderBy(op, _) => *op == DSLString::Equal,
                    MediaQueryType::Asc(op, _) => *op == DSLBool::Equal,
                    MediaQueryType::Limit(op, _) => *op == DSLInteger::Equal,
                    MediaQueryType::Page(op, _) => *op == DSLInteger::Equal,
                    _ => true,
                };
                if !equal_op {
                    let e = MediaQueryError::InvalidOperator(f.duplicate());
                    proof { lemma_check_error_stays(fvs, (i + 1) as nat, e@); }
                    return Err(e);
                }
                seen.set(k, true);
            },
            None => {
                if let Some(p) = first {
                    let e = MediaQueryError::InvalidFilterOrder(f.duplicate(), fs[p].duplicate());
                    proof { lemma_check_error_stays(fvs, (i + 1) as nat, e@); }
                    return Err(e);
                }
            },
        }
        i = i + 1;
    }
    if seen[3] && !seen[2] {
        return Err(MediaQueryError::InvalidPage);
    }
    Ok(())
}

/// The columns of the media table that a query may order by.
pub open spec fn is_media_order_column(c: Seq<char>) -> bool {
    c == "id"@ || c == "uuid"@ || c == "name"@ || c == "created_at"@ || c == "width"@
        || c == "height"@ || c == "size"@ || c == "path"@ || c == "liked"@ || c == "media_type"@
        || c == "added_at"@ || c == "duration"@ || c == "import_id"@
}

/// Ordering by a column, ascending or not, validates exactly when the column
/// is one of the media columns `id`, `uuid`, `name`, `created_at`, `width`,
/// `height`, `size`, `path`, `liked`, `media_type`, `added_at`, `duration`,
/// `import_id`; any other name is refused as an unknown column.
pub proof fn lemma_order_columns(c: Seq<char>, asc: bool)
    ensures
        ({
            let fs = seq![
                FilterView { field: Field::OrderBy, op: DslOp::Str(DSLString::Equal), value: ValueView::Str(c) },
                FilterView { field: Field::Asc, op: DslOp::Bool(DSLBool::Equal), value: ValueView::Bool(asc) },
            ];
            spec_validate(fs) == if is_media_order_column(c) {
                Ok::<(), ErrorView>(())
            } else {
                Err::<(), ErrorView>(ErrorView::UnknownColumn(c))
            }
        }),
{
    reveal(spec_safe_column);
    let fs = seq![
        FilterView { field: Field::OrderBy, op: DslOp::Str(DSLString::Equal), value: ValueView::Str(c) },
        FilterView { field: Field::Asc, op: DslOp::Bool(DSLBool::Equal), value: ValueView::Bool(asc) },
    ];
    assert(spec_safe_column(c) == is_media_order_column(c));
    let st0 = initial_check();
    assert(check_prefix(fs, 0) == Ok::<CheckState, ErrorView>(st0));
    if is_media_order_column(c) {
        let st1 = CheckState { seen: st0.seen.update(0, true), first_shaping: Some(fs[0]) };
        assert(check_prefix(fs, 1) == Ok::<CheckState, ErrorView>(st1));
        let st2 = CheckState { seen: st1.seen.update(1, true), first_shaping: Some(fs[0]) };
        assert(check_prefix(fs, 2) == Ok::<CheckState, ErrorView>(st2));
        assert(!st2.seen[3]);
    } else {
        assert(check_prefix(fs, 1) == Err::<CheckState, ErrorView>(ErrorView::UnknownColumn(c)));
        assert(check_prefix(fs, 2) == Err::<CheckState, ErrorView>(ErrorView::UnknownColumn(c)));
    }
}

} // verus!
