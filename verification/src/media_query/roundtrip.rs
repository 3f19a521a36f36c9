use vstd::prelude::*;
use crate::media_query::display::{join_with, value_text, filter_text, query_text, has_whitespace, rendered_value};
use crate::media_query::dsl::{
    DSLType, DSLBool, DSLInteger, DSLFloat, DSLString, DSLDate, DSLUuid, no_leading_eq,
    lemma_operators_read_back, lemma_string_operators_read_back, spec_parse_bool_value,
    spec_parse_integer_value, spec_parse_float_value, spec_parse_date_value, spec_parse_uuid_value,
};
use crate::media_query::macros::{
    is_quote, is_plain_char, join_tokens, written_token, reads_back, lemma_parse_written_tokens,
    spec_format_value,
};
use crate::media_query::media_query::{
    Field, DslKind, DslOp, ValueView, FilterView, well_kinded, spec_parse_token, spec_parse_tokens,
    spec_parse_query, spec_parse_op_value,
};
use crate::media_query::values::{
    chrono_parse_from_str, date_format, uuid_parse_str, spec_date_text, spec_uuid_text, spec_bool_text,
    spec_int_text, spec_is_float_literal, digit_char, hex_char, nat_digits, pad2, pad4, spec_year_text,
    lemma_int_text_roundtrip, lemma_decimals_are_floats, spec_parse_bool, unsigned_part, is_special_float, is_decimal_number,
    is_mantissa, lower_eq, ascii_lower, all_digits, is_ascii_digit, is_exp_char, is_exponent,
};
use crate::text::{first_index_of, spec_is_whitespace};

verus! {

// ---------------------------------------------------------------------------
// Joining
// ---------------------------------------------------------------------------

proof fn lemma_join_tokens_back(xs: Seq<Seq<char>>)
    requires
        xs.len() >= 2,
    ensures
        join_tokens(xs) == join_tokens(xs.drop_last()) + seq![' '] + xs.last(),
    decreases xs.len(),
{
    let d = xs.drop_last();
    let f = xs.drop_first();
    assert(join_tokens(xs) == xs[0] + seq![' '] + join_tokens(f));
    if xs.len() == 2 {
        assert(f.len() == 1 && f[0] == xs[1]);
        assert(join_tokens(f) == xs[1]);
        assert(d.len() == 1 && d[0] == xs[0]);
        assert(join_tokens(d) == xs[0]);
        assert(xs.last() == xs[1]);
    } else {
        lemma_join_tokens_back(f);
        assert(f.drop_last() == d.drop_first());
        assert(f.last() == xs.last());
        assert(d[0] == xs[0]);
        assert(join_tokens(d) == d[0] + seq![' '] + join_tokens(d.drop_first()));
        assert(join_tokens(f) == join_tokens(f.drop_last()) + seq![' '] + f.last());
    }
}

/// Joining with `" "` joins as the tokenizer's tokens are joined.
proof fn lemma_join_with_space(xs: Seq<Seq<char>>)
    ensures
        join_with(xs, " "@) == join_tokens(xs),
    decreases xs.len(),
{
    reveal_strlit(" ");
    assert(" "@ == seq![' ']);
    if xs.len() >= 2 {
        lemma_join_with_space(xs.drop_last());
        lemma_join_tokens_back(xs);
    }
}

// ---------------------------------------------------------------------------
// Field names
// ---------------------------------------------------------------------------

/// The characters of field names: lower-case letters and `_`.
pub open spec fn is_name_char(c: char) -> bool {
    ('a' <= c && c <= 'z') || c == '_'
}

pub open spec fn is_name(s: Seq<char>) -> bool {
    s.len() > 0 && forall|k: int| 0 <= k < s.len() ==> is_name_char(#[trigger] s[k])
}

proof fn lemma_field_name(f: Field)
    ensures
        Field::spec_from_name(f.spec_name()) == Some(f),
        is_name(f.spec_name()),
{
    reveal_strlit("order_by");
    reveal_strlit("asc");
    reveal_strlit("limit");
    reveal_strlit("page");
    reveal_strlit("path");
    reveal_strlit("filter_path");
    reveal_strlit("created_at");
    reveal_strlit("is_screenshot");
    reveal_strlit("media_type");
    reveal_strlit("has_gps");
    reveal_strlit("import_id");
    reveal_strlit("longitude");
    reveal_strlit("latitude");
    reveal_strlit("transcript");
    reveal_strlit("vision_ocr");
    reveal_strlit("full_search");
    reveal_strlit("album_uuid");
    reveal_strlit("tag");
    reveal_strlit("has_thumbnail");
    let n = f.spec_name();
    assert(is_name(n));
    match f {
        Field::OrderBy => {
            assert(Field::spec_from_name(n) == Some(f));
        },
        Field::Asc => {
            assert(Field::spec_from_name(n) == Some(f));
        },
        Field::Limit => {
            assert(Field::spec_from_name(n) == Some(f));
        },
        Field::Page => {
            assert(Field::spec_from_name(n) == Some(f));
        },
        Field::Path => {
            assert("path"@[2] != "page"@[2]);
            assert(Field::spec_from_name(n) == Some(f));
        },
        Field::CreatedAt => {
            assert(Field::spec_from_name(n) == Some(f));
        },
        Field::IsScreenshot => {
            assert(Field::spec_from_name(n) == Some(f));
        },
        Field::MediaType => {
            assert("media_type"@[0] != "created_at"@[0]);
            assert(Field::spec_from_name(n) == Some(f));
        },
        Field::HasGps => {
            assert(Field::spec_from_name(n) == Some(f));
        },
        Field::ImportId => {
            assert(Field::spec_from_name(n) == Some(f));
        },
        Field::Longitude => {
            assert("longitude"@[0] != "import_id"@[0]);
            assert(Field::spec_from_name(n) == Some(f));
        },
        Field::Latitude => {
            assert("latitude"@[0] != "order_by"@[0]);
            assert(Field::spec_from_name(n) == Some(f));
        },
        Field::Transcript => {
            assert("transcript"@[0] != "created_at"@[0]);
            assert("transcript"@[0] != "media_type"@[0]);
            assert(Field::spec_from_name(n) == Some(f));
        },
        Field::VisionOcr => {
            assert("vision_ocr"@[0] != "created_at"@[0]);
            assert("vision_ocr"@[0] != "media_type"@[0]);
            assert("vision_ocr"@[0] != "transcript"@[0]);
            assert(Field::spec_from_name(n) == Some(f));
        },
        Field::FullSearch => {
            assert("full_search"@[1] != "filter_path"@[1]);
            assert(Field::spec_from_name(n) == Some(f));
        },
        Field::AlbumUuid => {
            assert("album_uuid"@[0] != "created_at"@[0]);
            assert("album_uuid"@[0] != "media_type"@[0]);
            assert("album_uuid"@[0] != "transcript"@[0]);
            assert("album_uuid"@[0] != "vision_ocr"@[0]);
            assert(Field::spec_from_name(n) == Some(f));
        },
        Field::Tag => {
            assert("tag"@[0] != "asc"@[0]);
            assert(Field::spec_from_name(n) == Some(f));
        },
        Field::HasThumbnail => {
            assert("has_thumbnail"@[0] != "is_screenshot"@[0]);
            assert(Field::spec_from_name(n) == Some(f));
        },
    }
}

// ---------------------------------------------------------------------------
// The shape of written values
// ---------------------------------------------------------------------------

/// Text free of quotes and backslashes.
pub open spec fn quote_free(t: Seq<char>) -> bool {
    forall|k: int| 0 <= k < t.len() ==> !is_quote(#[trigger] t[k]) && t[k] != '\\'
}

/// A text that the tokenizer reads back whole, as a query's text writes it:
/// without backslashes, and, unless it holds whitespace (and is quoted),
/// without quotes.
pub open spec fn text_survives(t: Seq<char>) -> bool {
    &&& forall|k: int| 0 <= k < t.len() ==> #[trigger] t[k] != '\\'
    &&& !has_whitespace(t) ==> quote_free(t)
}

/// A character that a written value may hold without confusing the
/// tokenizer or an operator: not a quote, a backslash or `=`.
pub open spec fn safe_char(c: char) -> bool {
    !is_quote(c) && c != '\\' && c != '='
}

pub open spec fn safe_text(t: Seq<char>) -> bool {
    forall|k: int| 0 <= k < t.len() ==> safe_char(#[trigger] t[k])
}

proof fn lemma_safe_concat(a: Seq<char>, b: Seq<char>)
    requires
        safe_text(a),
        safe_text(b),
    ensures
        safe_text(a + b),
{
    assert forall|k: int| 0 <= k < (a + b).len() implies safe_char(#[trigger] (a + b)[k]) by {
        if k < a.len() {
            assert((a + b)[k] == a[k]);
        } else {
            assert((a + b)[k] == b[k - a.len()]);
        }
    }
}

proof fn lemma_digit_char_safe(d: int)
    ensures
        safe_char(digit_char(d)),
        is_ascii_digit(digit_char(d)),
{
}

proof fn lemma_nat_digits_safe(n: nat)
    ensures
        safe_text(nat_digits(n)),
        nat_digits(n).len() > 0,
    decreases n,
{
    if n >= 10 {
        lemma_nat_digits_safe(n / 10);
        lemma_digit_char_safe((n % 10) as int);
        let p = nat_digits(n / 10);
        assert forall|k: int| 0 <= k < p.push(digit_char((n % 10) as int)).len()
            implies safe_char(#[trigger] p.push(digit_char((n % 10) as int))[k]) by {
            if k < p.len() {
                assert(p.push(digit_char((n % 10) as int))[k] == p[k]);
            }
        }
    } else {
        lemma_digit_char_safe(n as int);
    }
}

proof fn lemma_digit_seq_safe(s: Seq<char>)
    requires
        all_digits(s),
    ensures
        safe_text(s),
{
    assert forall|k: int| 0 <= k < s.len() implies safe_char(#[trigger] s[k]) by {
        assert(is_ascii_digit(s[k]));
    }
}

proof fn lemma_int_text_safe(i: int)
    ensures
        safe_text(spec_int_text(i)),
{
    if i < 0 {
        lemma_nat_digits_safe((-i) as nat);
        assert(safe_text(seq!['-']));
        lemma_safe_concat(seq!['-'], nat_digits((-i) as nat));
    } else {
        lemma_nat_digits_safe(i as nat);
    }
}

proof fn lemma_date_text_safe(y: int, m: nat, d: nat)
    ensures
        safe_text(spec_year_text(y) + seq!['-'] + pad2(m) + seq!['-'] + pad2(d)),
{
    let a = if y < 0 { -y } else { y };
    lemma_digit_char_safe(y / 1000);
    lemma_digit_char_safe((y / 100) % 10);
    lemma_digit_char_safe((y / 10) % 10);
    lemma_digit_char_safe(y % 10);
    lemma_digit_char_safe(a / 1000);
    lemma_digit_char_safe((a / 100) % 10);
    lemma_digit_char_safe((a / 10) % 10);
    lemma_digit_char_safe(a % 10);
    assert(safe_text(pad4(y)));
    assert(safe_text(pad4(a)));
    if 0 <= y <= 9999 {
    } else {
        let sign = if y < 0 { seq!['-'] } else { seq!['+'] };
        assert(safe_text(sign));
        if a < 10000 {
            lemma_safe_concat(sign, pad4(a));
        } else {
            lemma_nat_digits_safe(a as nat);
            lemma_safe_concat(sign, nat_digits(a as nat));
        }
    }
    lemma_digit_char_safe(m as int);
    lemma_digit_char_safe(d as int);
    lemma_nat_digits_safe(m);
    lemma_nat_digits_safe(d);
    assert(safe_text(pad2(m)));
    assert(safe_text(pad2(d)));
    assert(safe_text(seq!['-']));
    lemma_safe_concat(spec_year_text(y), seq!['-']);
    lemma_safe_concat(spec_year_text(y) + seq!['-'], pad2(m));
    lemma_safe_concat(spec_year_text(y) + seq!['-'] + pad2(m), seq!['-']);
    lemma_safe_concat(spec_year_text(y) + seq!['-'] + pad2(m) + seq!['-'], pad2(d));
}

proof fn lemma_uuid_text_safe(u: u128)
    ensures
        safe_text(spec_uuid_text(u)),
{
    let t = spec_uuid_text(u);
    assert forall|k: int| 0 <= k < t.len() implies safe_char(#[trigger] t[k]) by {
    }
}

proof fn lemma_mantissa_safe(m: Seq<char>)
    requires
        is_mantissa(m),
    ensures
        safe_text(m),
{
    if m.len() > 0 && all_digits(m) {
        lemma_digit_seq_safe(m);
    } else {
        let d = choose|d: int| 0 <= d < m.len() && m[d] == '.' && all_digits(#[trigger] m.take(d)) && all_digits(m.skip(d + 1));
        assert forall|k: int| 0 <= k < m.len() implies safe_char(#[trigger] m[k]) by {
            if k < d {
                assert(m.take(d)[k] == m[k]);
                assert(is_ascii_digit(m.take(d)[k]));
            } else if k > d {
                assert(m.skip(d + 1)[k - d - 1] == m[k]);
                assert(is_ascii_digit(m.skip(d + 1)[k - d - 1]));
            }
        }
    }
}

proof fn lemma_exponent_safe(x: Seq<char>)
    requires
        is_exponent(x),
    ensures
        safe_text(x),
{
    let u = unsigned_part(x);
    assert forall|k: int| 0 <= k < x.len() implies safe_char(#[trigger] x[k]) by {
        if x.len() > 0 && (x[0] == '+' || x[0] == '-') {
            if k > 0 {
                assert(u[k - 1] == x[k]);
                assert(is_ascii_digit(u[k - 1]));
            }
        } else {
            assert(u[k] == x[k]);
            assert(is_ascii_digit(u[k]));
        }
    }
}

proof fn lemma_lower_eq_safe(s: Seq<char>, w: Seq<char>)
    requires
        lower_eq(s, w),
        forall|k: int| 0 <= k < w.len() ==> 'a' <= #[trigger] w[k] <= 'z',
    ensures
        safe_text(s),
{
    assert forall|k: int| 0 <= k < s.len() implies safe_char(#[trigger] s[k]) by {
        assert(ascii_lower(s[k]) == w[k]);
        if is_quote(s[k]) || s[k] == '\\' || s[k] == '=' {
            assert(ascii_lower(s[k]) == s[k]);
        }
    }
}

proof fn lemma_float_literal_safe(t: Seq<char>)
    requires
        spec_is_float_literal(t),
    ensures
        safe_text(t),
{
    let u = unsigned_part(t);
    if is_special_float(u) {
        if lower_eq(u, seq!['i', 'n', 'f']) {
            lemma_lower_eq_safe(u, seq!['i', 'n', 'f']);
        } else if lower_eq(u, seq!['i', 'n', 'f', 'i', 'n', 'i', 't', 'y']) {
            lemma_lower_eq_safe(u, seq!['i', 'n', 'f', 'i', 'n', 'i', 't', 'y']);
        } else {
            lemma_lower_eq_safe(u, seq!['n', 'a', 'n']);
        }
    } else if is_mantissa(u) {
        lemma_mantissa_safe(u);
    } else {
        let e = choose|e: int| 0 <= e < u.len() && is_exp_char(u[e]) && is_mantissa(#[trigger] u.take(e)) && is_exponent(u.skip(e + 1));
        lemma_mantissa_safe(u.take(e));
        lemma_exponent_safe(u.skip(e + 1));
        assert forall|k: int| 0 <= k < u.len() implies safe_char(#[trigger] u[k]) by {
            if k < e {
                assert(u.take(e)[k] == u[k]);
            } else if k > e {
                assert(u.skip(e + 1)[k - e - 1] == u[k]);
            }
        }
    }
    assert forall|k: int| 0 <= k < t.len() implies safe_char(#[trigger] t[k]) by {
        if t.len() > 0 && (t[0] == '+' || t[0] == '-') {
            if k > 0 {
                assert(u[k - 1] == t[k]);
            }
        } else {
            assert(u[k] == t[k]);
        }
    }
}

/// The value's text is free of quotes, backslashes and `=`, for every value
/// but a string.
proof fn lemma_value_text_safe(v: ValueView)
    requires
        v matches ValueView::Float(t) ==> spec_is_float_literal(t),
        !(v is Str),
    ensures
        safe_text(value_text(v)),
{
    match v {
        ValueView::Bool(b) => {
            reveal_strlit("true");
            reveal_strlit("false");
            assert(safe_text(spec_bool_text(b)));
        },
        ValueView::Integer(i) => lemma_int_text_safe(i as int),
        ValueView::Float(t) => lemma_float_literal_safe(t),
        ValueView::Str(_) => {},
        ValueView::Date(d) => lemma_date_text_safe(d.year as int, d.month as nat, d.day as nat),
        ValueView::Uuid(u) => lemma_uuid_text_safe(u.0),
    }
}

// ---------------------------------------------------------------------------
// Reading back
// ---------------------------------------------------------------------------

/// The token that a filter is read from: `<field>:<op><value>`, unquoted.
pub open spec fn token_text(f: FilterView) -> Seq<char> {
    f.field.spec_name() + ":"@ + f.op.spec_text() + value_text(f.value)
}

/// A value that reads back from its text: a string that the tokenizer keeps
/// whole, a float literal, and a date or UUID that chrono or the uuid crate
/// reads back from the text written for it.
pub open spec fn value_reads_back(v: ValueView) -> bool {
    match v {
        ValueView::Str(s) => text_survives(s),
        ValueView::Float(t) => spec_is_float_literal(t),
        ValueView::Date(d) => chrono_parse_from_str(spec_date_text(d), date_format()) == Some((d.year, d.month, d.day)),
        ValueView::Uuid(u) => uuid_parse_str(spec_uuid_text(u.0)) == Some(u.0),
        _ => true,
    }
}

/// A filter whose operator and value have its field's type, and whose value
/// reads back from its text.
pub open spec fn filter_reads_back(f: FilterView) -> bool {
    well_kinded(f) && value_reads_back(f.value)
}

proof fn lemma_first_index(s: Seq<char>, c: char, k: int)
    requires
        0 <= k < s.len(),
        s[k] == c,
        forall|j: int| 0 <= j < k ==> s[j] != c,
    ensures
        first_index_of(s, c) == Some(k),
{
    assert(0 <= k < s.len() && s[k] == c && forall|j: int| 0 <= j < k ==> s[j] != c);
    let w = choose|w: int| 0 <= w < s.len() && s[w] == c && forall|j: int| 0 <= j < w ==> s[j] != c;
    if w < k {
    } else if w > k {
        assert(s[k] != c);
    }
}

/// The spellings of the operators hold only `=`, `<`, `>`, `!` and `%`.
proof fn lemma_op_text_plain(op: DslOp)
    ensures
        op.spec_text().len() > 0,
        forall|k: int| 0 <= k < op.spec_text().len() ==> is_plain_char(#[trigger] op.spec_text()[k]),
{
    reveal_strlit("=");
    reveal_strlit("!=");
    reveal_strlit(">=");
    reveal_strlit("<=");
    reveal_strlit(">");
    reveal_strlit("<");
    reveal_strlit("%");
    reveal_strlit("!%");
    let t = op.spec_text();
    assert forall|k: int| 0 <= k < t.len() implies is_plain_char(#[trigger] t[k]) by {
        assert(t[k] == '=' || t[k] == '<' || t[k] == '>' || t[k] == '!' || t[k] == '%');
    }
}

/// A filter that reads back is read back from its token.
proof fn lemma_token_reads_back(f: FilterView)
    requires
        filter_reads_back(f),
    ensures
        spec_parse_token(token_text(f)) == Ok::<FilterView, Seq<char>>(f),
{
    reveal_strlit(":");
    let n = f.field.spec_name();
    let o = f.op.spec_text();
    let vt = value_text(f.value);
    let t = token_text(f);
    lemma_field_name(f.field);
    assert(t == n + seq![':'] + (o + vt));
    assert forall|j: int| 0 <= j < n.len() implies t[j] != ':' by {
        assert(t[j] == n[j]);
        assert(is_name_char(n[j]));
    }
    assert(t[n.len() as int] == ':');
    lemma_first_index(t, ':', n.len() as int);
    assert(t.take(n.len() as int) == n);
    assert(t.skip(n.len() as int + 1) == o + vt);
    assert((o + vt).skip(o.len() as int) == vt);
    if !(f.value is Str) {
        lemma_value_text_safe(f.value);
        assert(no_leading_eq(vt)) by {
            if vt.len() > 0 {
                assert(safe_char(vt[0]));
            }
        }
        lemma_operators_read_back(vt);
    }
    match f.op {
        DslOp::Bool(ob) => {
            reveal_strlit("true");
            reveal_strlit("false");
            assert(DSLBool::spec_from_str(ob.spec_to_str() + vt) == Some(ob));
        },
        DslOp::Integer(oi) => {
            if let ValueView::Integer(i) = f.value {
                lemma_int_text_roundtrip(i);
            }
            assert(DSLInteger::spec_from_str(oi.spec_to_str() + vt) == Some(oi));
        },
        DslOp::Float(ofl) => {
            assert(DSLFloat::spec_from_str(ofl.spec_to_str() + vt) == Some(ofl));
        },
        DslOp::Str(os) => {
            lemma_string_operators_read_back(os, vt);
        },
        DslOp::Date(od) => {
            assert(DSLDate::spec_from_str(od.spec_to_str() + vt) == Some(od));
        },
        DslOp::Uuid(ou) => {
            assert(DSLUuid::spec_from_str(ou.spec_to_str() + vt) == Some(ou));
        },
    }
    assert(spec_parse_op_value(f.field.spec_kind(), n, o + vt) == Ok::<(DslOp, ValueView), Seq<char>>((f.op, f.value)));
}

proof fn lemma_parse_tokens_all(ts: Seq<Seq<char>>, fs: Seq<FilterView>)
    requires
        ts.len() == fs.len(),
        forall|k: int| 0 <= k < ts.len() ==> spec_parse_token(#[trigger] ts[k]) == Ok::<FilterView, Seq<char>>(fs[k]),
    ensures
        spec_parse_tokens(ts) == Ok::<Seq<FilterView>, Seq<char>>(fs),
    decreases ts.len(),
{
    if ts.len() > 0 {
        lemma_parse_tokens_all(ts.drop_last(), fs.drop_last());
        assert(spec_parse_token(ts.last()) == Ok::<FilterView, Seq<char>>(fs.last()));
        assert(fs.drop_last().push(fs.last()) == fs);
    } else {
        assert(fs == Seq::<FilterView>::empty());
    }
}

/// Reading a query's text gives back the query: the text of each filter is
/// read back as that filter, provided its value reads back from its text (a
/// string value holds no backslash, nor a quote unless it holds whitespace; a
/// float is a float literal; chrono and the uuid crate read back the dates
/// and UUIDs written for them).
pub proof fn lemma_query_text_reads_back(fs: Seq<FilterView>)
    requires
        forall|i: int| 0 <= i < fs.len() ==> filter_reads_back(#[trigger] fs[i]),
    ensures
        spec_parse_query(query_text(fs)) == Ok::<Seq<FilterView>, Seq<char>>(fs),
{
    reveal_strlit(":");
    let items = fs.map_values(|f: FilterView| filter_text(f));
    lemma_join_with_space(items);
    let ps = Seq::new(fs.len(), |k: int| fs[k].field.spec_name() + ":"@ + fs[k].op.spec_text());
    let vs = Seq::new(fs.len(), |k: int| value_text(fs[k].value));
    let qs = Seq::new(fs.len(), |k: int| has_whitespace(value_text(fs[k].value)));
    assert forall|k: int| 0 <= k < ps.len() implies reads_back(#[trigger] ps[k], vs[k], qs[k]) by {
        let f = fs[k];
        assert(filter_reads_back(f));
        lemma_field_name(f.field);
        lemma_op_text_plain(f.op);
        let n = f.field.spec_name();
        let o = f.op.spec_text();
        assert(ps[k] == n + seq![':'] + o);
        assert forall|j: int| 0 <= j < ps[k].len() implies is_plain_char(#[trigger] ps[k][j]) by {
            if j < n.len() {
                assert(ps[k][j] == n[j]);
                assert(is_name_char(n[j]));
            } else if j > n.len() {
                assert(ps[k][j] == o[j - n.len() - 1]);
            }
        }
        let v = vs[k];
        if !(f.value is Str) {
            lemma_value_text_safe(f.value);
        }
        if qs[k] {
            assert forall|j: int| 0 <= j < v.len() implies #[trigger] v[j] != '\\' by {
                if !(f.value is Str) {
                    assert(safe_char(v[j]));
                }
            }
        } else {
            assert forall|j: int| 0 <= j < v.len() implies is_plain_char(#[trigger] v[j]) by {
                assert(!spec_is_whitespace(v[j]));
                if !(f.value is Str) {
                    assert(safe_char(v[j]));
                } else {
                    assert(quote_free(v));
                }
            }
        }
    }
    assert(items == Seq::new(ps.len(), |k: int| written_token(ps[k], vs[k], qs[k])));
    lemma_parse_written_tokens(ps, vs, qs);
    let ts = Seq::new(ps.len(), |k: int| ps[k] + vs[k]);
    assert forall|k: int| 0 <= k < ts.len() implies spec_parse_token(#[trigger] ts[k]) == Ok::<FilterView, Seq<char>>(fs[k]) by {
        assert(ts[k] == token_text(fs[k]));
        lemma_token_reads_back(fs[k]);
    }
    lemma_parse_tokens_all(ts, fs);
}

/// A coordinate filter reads a negative value: for digits `a` and `b`, the
/// token `longitude:<op>-a.b` (or `latitude:...`, or `-a` alone) reads as a
/// filter on that coordinate with that operator and the signed value.
pub proof fn lemma_negative_coordinates_read(field: Field, o: DSLFloat, a: Seq<char>, b: Seq<char>)
    requires
        field == Field::Longitude || field == Field::Latitude,
        a.len() > 0,
        b.len() > 0,
        all_digits(a),
        all_digits(b),
    ensures
        ({
            let v = seq!['-'] + (a + seq!['.'] + b);
            spec_parse_token(field.spec_name() + ":"@ + o.spec_to_str() + v)
                == Ok::<FilterView, Seq<char>>(FilterView { field, op: DslOp::Float(o), value: ValueView::Float(v) })
        }),
        ({
            let w = seq!['-'] + a;
            spec_parse_token(field.spec_name() + ":"@ + o.spec_to_str() + w)
                == Ok::<FilterView, Seq<char>>(FilterView { field, op: DslOp::Float(o), value: ValueView::Float(w) })
        }),
{
    lemma_decimals_are_floats(a, b);
    let v = seq!['-'] + (a + seq!['.'] + b);
    let w = seq!['-'] + a;
    let f = FilterView { field, op: DslOp::Float(o), value: ValueView::Float(v) };
    let g = FilterView { field, op: DslOp::Float(o), value: ValueView::Float(w) };
    assert(filter_reads_back(f));
    assert(filter_reads_back(g));
    lemma_token_reads_back(f);
    lemma_token_reads_back(g);
}

} // verus!
