use vstd::prelude::*;
use crate::text::{chars_of, string_of, spec_is_whitespace};

verus! {

/// The message of the error returned when the input ends right after a backslash.
pub open spec fn dangling_escape_msg() -> Seq<char> {
    "unexpected end of string"@
}

/// The message of the error returned when a quote is never closed.
pub open spec fn unmatched_quote_msg(q: char) -> Seq<char> {
    "unmatched quote: "@.push(q)
}

pub open spec fn is_quote(c: char) -> bool {
    c == '"' || c == '\''
}

/// The tokenizer of the filter language, as a state machine over the characters
/// of the input.  `i` is the position, `quote` the quote that is open (if any),
/// `cur` the token being built, `acc` the tokens already complete.
///
/// Whitespace outside quotes ends the current token; a backslash takes the next
/// character literally; a quote opens a quoted run that the same quote closes
/// (the other quote character inside it is literal); everything else is
/// appended to the current token.
pub open spec fn scan(
    cs: Seq<char>,
    i: nat,
    quote: Option<char>,
    cur: Seq<char>,
    acc: Seq<Seq<char>>,
) -> Result<Seq<Seq<char>>, Seq<char>>
    decreases cs.len() - i,
{
    if i >= cs.len() {
        match quote {
            Some(q) => Err(unmatched_quote_msg(q)),
            None => Ok(if cur.len() > 0 { acc.push(cur) } else { acc }),
        }
    } else {
        let c = cs[i as int];
        if spec_is_whitespace(c) {
            if quote is None {
                if cur.len() > 0 {
                    scan(cs, i + 1, quote, Seq::empty(), acc.push(cur))
                } else {
                    scan(cs, i + 1, quote, cur, acc)
                }
            } else {
                scan(cs, i + 1, quote, cur.push(c), acc)
            }
        } else if c == '\\' {
            if i + 1 >= cs.len() {
                Err(dangling_escape_msg())
            } else {
                scan(cs, i + 2, quote, cur.push(cs[i + 1 as int]), acc)
            }
        } else if is_quote(c) {
            match quote {
                Some(q) => if q == c {
                    scan(cs, i + 1, None, cur, acc)
                } else {
                    scan(cs, i + 1, quote, cur.push(c), acc)
                },
                None => scan(cs, i + 1, Some(c), cur, acc),
            }
        } else {
            scan(cs, i + 1, quote, cur.push(c), acc)
        }
    }
}

/// The tokens of a filter string, or the message of the error that it raises.
pub open spec fn spec_parse_filter(cs: Seq<char>) -> Result<Seq<Seq<char>>, Seq<char>> {
    scan(cs, 0, None, Seq::empty(), Seq::empty())
}

pub open spec fn is_ascii_seq(cs: Seq<char>) -> bool {
    forall|i: int| 0 <= i < cs.len() ==> (cs[i] as u32) < 128
}

/// The inputs on which `parse_filter` returns: every ASCII string, and the
/// strings that end in a dangling backslash (the only error raised inside the
/// scan).  On other inputs the scan runs past the last character, indexing
/// characters by byte length, and panics.
pub open spec fn filter_input_supported(cs: Seq<char>) -> bool {
    is_ascii_seq(cs) || spec_parse_filter(cs) == Err::<Seq<Seq<char>>, Seq<char>>(dangling_escape_msg())
}

pub open spec fn views(v: Seq<String>) -> Seq<Seq<char>> {
    v.map_values(|s: String| s@)
}

/// Splits a filter string into its whitespace-separated tokens, honouring
/// quotes and backslash escapes, for any input.
fn tokenize(query_string: &str) -> (res: Result<Vec<String>, String>)
    ensures
        match res {
            Ok(v) => spec_parse_filter(query_string@) == Ok::<Seq<Seq<char>>, Seq<char>>(views(v@)),
            Err(e) => spec_parse_filter(query_string@) == Err::<Seq<Seq<char>>, Seq<char>>(e@),
        },
{
    let chars = chars_of(query_string);
    let mut filters: Vec<String> = Vec::new();
    let mut quote: Option<char> = None;
    let mut curr: usize = 0;
    let mut curr_filter: Vec<char> = Vec::new();
    assert(views(filters@) == Seq::<Seq<char>>::empty());
    assert(curr_filter@ == Seq::<char>::empty());

    while curr < chars.len()
        invariant
            chars@ == query_string@,
            curr <= chars.len(),
            spec_parse_filter(chars@) == scan(chars@, curr as nat, quote, curr_filter@, views(filters@)),
        decreases chars.len() - curr,
    {
        let c = chars[curr];
        if c.is_whitespace() {
            if quote.is_none() {
                if curr_filter.len() > 0 {
                    let t = string_of(curr_filter.as_slice());
                    proof {
                        assert(views(filters@.push(t)) == views(filters@).push(curr_filter@));
                    }
                    filters.push(t);
                    curr_filter = Vec::new();
                    assert(curr_filter@ == Seq::<char>::empty());
                }
            } else {
                curr_filter.push(c);
            }
        } else if c == '\\' {
            if curr + 1 >= chars.len() {
                return Err(String::from_str("unexpected end of string"));
            }
            curr_filter.push(chars[curr + 1]);
            curr = curr + 1;
        } else if c == '"' || c == '\'' {
            match quote {
                Some(q) => {
                    if q == c {
                        quote = None;
                    } else {
                        curr_filter.push(c);
                    }
                },
                None => {
                    quote = Some(c);
                },
            }
        } else {
            curr_filter.push(c);
        }
        curr = curr + 1;
    }

    match quote {
        Some(q) => {
            let mut msg = String::from_str("unmatched quote: ");
            msg.push(q);
            return Err(msg);
        },
        None => {},
    }

    if curr_filter.len() > 0 {
        let t = string_of(curr_filter.as_slice());
        proof {
            assert(views(filters@.push(t)) == views(filters@).push(curr_filter@));
        }
        filters.push(t);
    }
    Ok(filters)
}


/// A character that the tokenizer copies into the current token when no quote is open.
pub open spec fn is_plain_char(c: char) -> bool {
    !spec_is_whitespace(c) && c != '\\' && !is_quote(c)
}

pub open spec fn is_plain_token(t: Seq<char>) -> bool {
    t.len() > 0 && forall|k: int| 0 <= k < t.len() ==> is_plain_char(#[trigger] t[k])
}

/// Tokens joined by single spaces.
pub open spec fn join_tokens(ts: Seq<Seq<char>>) -> Seq<char>
    decreases ts.len(),
{
    if ts.len() == 0 {
        Seq::empty()
    } else if ts.len() == 1 {
        ts[0]
    } else {
        ts[0] + seq![' '] + join_tokens(ts.drop_first())
    }
}

/// The quoting of one character inside a single-quoted value.
pub open spec fn escape_char(c: char) -> Seq<char> {
    if c == '\'' {
        seq!['\\', '\'']
    } else {
        seq![c]
    }
}

/// `v` with every single quote preceded by a backslash.
pub open spec fn escape_quotes(v: Seq<char>) -> Seq<char>
    decreases v.len(),
{
    if v.len() == 0 {
        Seq::empty()
    } else {
        escape_quotes(v.drop_last()) + escape_char(v.last())
    }
}

/// What `format_value` returns: the value between single quotes, with its
/// single quotes escaped.
pub open spec fn spec_format_value(v: Seq<char>) -> Seq<char> {
    seq!['\''] + escape_quotes(v) + seq!['\'']
}

/// Splits a filter string into its whitespace-separated tokens, honouring
/// quotes and backslash escapes; the tokens, or the message of the error.
pub fn parse_filter(query_string: &str) -> (res: Result<Vec<String>, String>)
    requires
        filter_input_supported(query_string@),
    ensures
        match res {
            Ok(v) => spec_parse_filter(query_string@) == Ok::<Seq<Seq<char>>, Seq<char>>(views(v@)),
            Err(e) => spec_parse_filter(query_string@) == Err::<Seq<Seq<char>>, Seq<char>>(e@),
        },
{
    tokenize(query_string)
}

/// Whether `parse_filter` can read the string (see `filter_input_supported`).
pub fn filter_input_is_supported(query_string: &str) -> (r: bool)
    ensures
        r == filter_input_supported(query_string@),
{
    let cs = chars_of(query_string);
    let mut i: usize = 0;
    let mut ascii = true;
    while i < cs.len()
        invariant
            i <= cs@.len(),
            cs@ == query_string@,
            ascii == forall|j: int| 0 <= j < i ==> (cs@[j] as u32) < 128,
        decreases cs.len() - i,
    {
        if (cs[i] as u32) >= 128 {
            ascii = false;
        }
        i = i + 1;
    }
    if ascii {
        return true;
    }
    match tokenize(query_string) {
        Ok(_) => false,
        Err(e) => {
            let ec = chars_of(e.as_str());
            crate::media_query::values::eq_chars(ec.as_slice(), "unexpected end of string")
        },
    }
}

/// Quotes a value so that the tokenizer reads it back as one token.
pub fn format_value(value: &str) -> (out: String)
    ensures
        out@ == spec_format_value(value@),
{
    let cs = chars_of(value);
    let mut out = String::new();
    out.push('\'');
    let mut i: usize = 0;
    while i < cs.len()
        invariant
            i <= cs.len(),
            cs@ == value@,
            out@ == seq!['\''] + escape_quotes(cs@.take(i as int)),
        decreases cs.len() - i,
    {
        let c = cs[i];
        if c == '\'' {
            out.push('\\');
            out.push('\'');
        } else {
            out.push(c);
        }
        proof {
            assert(cs@.take(i + 1).drop_last() == cs@.take(i as int));
        }
        i = i + 1;
    }
    out.push('\'');
    assert(cs@.take(cs.len() as int) == cs@);
    out
}

proof fn lemma_scan_tokens_nonempty(
    cs: Seq<char>,
    i: nat,
    quote: Option<char>,
    cur: Seq<char>,
    acc: Seq<Seq<char>>,
)
    requires
        forall|k: int| 0 <= k < acc.len() ==> (#[trigger] acc[k]).len() > 0,
    ensures
        scan(cs, i, quote, cur, acc) matches Ok(ts) ==> forall|k: int|
            0 <= k < ts.len() ==> (#[trigger] ts[k]).len() > 0,
    decreases cs.len() - i,
{
    if i >= cs.len() {
    } else {
        let c = cs[i as int];
        if spec_is_whitespace(c) {
            if quote is None {
                if cur.len() > 0 {
                    lemma_scan_tokens_nonempty(cs, i + 1, quote, Seq::empty(), acc.push(cur));
                } else {
                    lemma_scan_tokens_nonempty(cs, i + 1, quote, cur, acc);
                }
            } else {
                lemma_scan_tokens_nonempty(cs, i + 1, quote, cur.push(c), acc);
            }
        } else if c == '\\' {
            if i + 1 < cs.len() {
                lemma_scan_tokens_nonempty(cs, i + 2, quote, cur.push(cs[i + 1 as int]), acc);
            }
        } else if is_quote(c) {
            match quote {
                Some(q) => if q == c {
                    lemma_scan_tokens_nonempty(cs, i + 1, None, cur, acc);
                } else {
                    lemma_scan_tokens_nonempty(cs, i + 1, quote, cur.push(c), acc);
                },
                None => lemma_scan_tokens_nonempty(cs, i + 1, Some(c), cur, acc),
            }
        } else {
            lemma_scan_tokens_nonempty(cs, i + 1, quote, cur.push(c), acc);
        }
    }
}

/// The tokenizer never produces an empty token.
pub proof fn lemma_parse_filter_tokens_nonempty(cs: Seq<char>)
    ensures
        spec_parse_filter(cs) matches Ok(ts) ==> forall|k: int|
            0 <= k < ts.len() ==> (#[trigger] ts[k]).len() > 0,
{
    lemma_scan_tokens_nonempty(cs, 0, None, Seq::empty(), Seq::empty());
}

proof fn lemma_scan_plain_run(cs: Seq<char>, i: nat, w: Seq<char>, cur: Seq<char>, acc: Seq<Seq<char>>)
    requires
        i + w.len() <= cs.len(),
        cs.subrange(i as int, (i + w.len()) as int) == w,
        forall|k: int| 0 <= k < w.len() ==> is_plain_char(#[trigger] w[k]),
    ensures
        scan(cs, i, None, cur, acc) == scan(cs, i + w.len(), None, cur + w, acc),
    decreases w.len(),
{
    if w.len() == 0 {
        assert(cur + w == cur);
    } else {
        assert(cs[i as int] == w[0]);
        assert(is_plain_char(w[0]));
        let rest = w.drop_first();
        assert(cs.subrange(i + 1 as int, (i + 1 + rest.len()) as int) == rest);
        assert forall|k: int| 0 <= k < rest.len() implies is_plain_char(#[trigger] rest[k]) by {
            assert(rest[k] == w[k + 1]);
        }
        lemma_scan_plain_run(cs, i + 1, rest, cur.push(w[0]), acc);
        assert(cur.push(w[0]) + rest == cur + w);
    }
}

proof fn lemma_scan_join(cs: Seq<char>, i: nat, ts: Seq<Seq<char>>, acc: Seq<Seq<char>>)
    requires
        i <= cs.len(),
        cs.subrange(i as int, cs.len() as int) == join_tokens(ts),
        forall|k: int| 0 <= k < ts.len() ==> is_plain_token(#[trigger] ts[k]),
    ensures
        scan(cs, i, None, Seq::empty(), acc) == Ok::<Seq<Seq<char>>, Seq<char>>(acc + ts),
    decreases ts.len(),
{
    if ts.len() == 0 {
        assert(acc + ts == acc);
    } else {
        let t0 = ts[0];
        assert(is_plain_token(t0));
        if ts.len() == 1 {
            lemma_scan_plain_run(cs, i, t0, Seq::empty(), acc);
            assert(Seq::<char>::empty() + t0 == t0);
            assert(acc + ts == acc.push(t0));
        } else {
            let rest = ts.drop_first();
            let j = join_tokens(rest);
            assert(join_tokens(ts) == t0 + seq![' '] + j);
            assert(cs.subrange(i as int, (i + t0.len()) as int) == t0) by {
                assert(cs.subrange(i as int, (i + t0.len()) as int) == cs.subrange(i as int, cs.len() as int).subrange(0, t0.len() as int));
            }
            lemma_scan_plain_run(cs, i, t0, Seq::empty(), acc);
            assert(Seq::<char>::empty() + t0 == t0);
            let p = i + t0.len();
            assert(cs[p as int] == ' ') by {
                assert(cs[p as int] == cs.subrange(i as int, cs.len() as int)[t0.len() as int]);
            }
            assert(spec_is_whitespace(' '));
            assert(cs.subrange(p + 1 as int, cs.len() as int) == j) by {
                assert(cs.subrange(p + 1 as int, cs.len() as int) == cs.subrange(i as int, cs.len() as int).subrange(t0.len() + 1 as int, (cs.len() - i) as int));
            }
            assert forall|k: int| 0 <= k < rest.len() implies is_plain_token(#[trigger] rest[k]) by {
                assert(rest[k] == ts[k + 1]);
            }
            lemma_scan_join(cs, (p + 1) as nat, rest, acc.push(t0));
            assert(acc.push(t0) + rest == acc + ts);
        }
    }
}

/// Plain tokens (no whitespace, quote or backslash) joined by single spaces are
/// tokenized back into exactly those tokens.
pub proof fn lemma_parse_filter_join_roundtrip(ts: Seq<Seq<char>>)
    requires
        forall|k: int| 0 <= k < ts.len() ==> is_plain_token(#[trigger] ts[k]),
    ensures
        spec_parse_filter(join_tokens(ts)) == Ok::<Seq<Seq<char>>, Seq<char>>(ts),
{
    let cs = join_tokens(ts);
    assert(cs.subrange(0, cs.len() as int) == cs);
    lemma_scan_join(cs, 0, ts, Seq::empty());
    assert(Seq::<Seq<char>>::empty() + ts == ts);
}

proof fn lemma_escape_quotes_concat(a: Seq<char>, b: Seq<char>)
    ensures
        escape_quotes(a + b) == escape_quotes(a) + escape_quotes(b),
    decreases b.len(),
{
    if b.len() == 0 {
        assert(a + b == a);
    } else {
        assert((a + b).drop_last() == a + b.drop_last());
        assert((a + b).last() == b.last());
        lemma_escape_quotes_concat(a, b.drop_last());
    }
}

proof fn lemma_scan_quoted_run(cs: Seq<char>, i: nat, w: Seq<char>, cur: Seq<char>, acc: Seq<Seq<char>>)
    requires
        i + escape_quotes(w).len() <= cs.len(),
        cs.subrange(i as int, (i + escape_quotes(w).len()) as int) == escape_quotes(w),
        forall|k: int| 0 <= k < w.len() ==> #[trigger] w[k] != '\\',
    ensures
        scan(cs, i, Some('\''), cur, acc) == scan(cs, i + escape_quotes(w).len(), Some('\''), cur + w, acc),
    decreases w.len(),
{
    if w.len() == 0 {
        assert(cur + w == cur);
    } else {
        let c = w[0];
        let rest = w.drop_first();
        assert(w == seq![c] + rest);
        lemma_escape_quotes_concat(seq![c], rest);
        assert(seq![c].drop_last() == Seq::<char>::empty());
        assert(seq![c].last() == c);
        assert(escape_quotes(Seq::<char>::empty()) == Seq::<char>::empty());
        assert(Seq::<char>::empty() + escape_char(c) == escape_char(c));
        assert(escape_quotes(seq![c]) == escape_char(c));
        let e = escape_char(c);
        let er = escape_quotes(rest);
        assert(escape_quotes(w) == e + er);
        assert(cs.subrange(i as int, (i + e.len()) as int) == e) by {
            assert(cs.subrange(i as int, (i + e.len()) as int) == cs.subrange(i as int, (i + escape_quotes(w).len()) as int).subrange(0, e.len() as int));
        }
        assert(cs.subrange((i + e.len()) as int, (i + e.len() + er.len()) as int) == er) by {
            assert(cs.subrange((i + e.len()) as int, (i + e.len() + er.len()) as int) == cs.subrange(i as int, (i + escape_quotes(w).len()) as int).subrange(e.len() as int, (e.len() + er.len()) as int));
        }
        assert forall|k: int| 0 <= k < rest.len() implies #[trigger] rest[k] != '\\' by {
            assert(rest[k] == w[k + 1]);
        }
        assert(cs[i as int] == e[0]);
        assert(c != '\\');
        if c == '\'' {
            assert(cs[i + 1 as int] == e[1]);
            assert(!spec_is_whitespace('\\'));
            lemma_scan_quoted_run(cs, i + 2, rest, cur.push('\''), acc);
        } else {
            lemma_scan_quoted_run(cs, i + 1, rest, cur.push(c), acc);
        }
        assert(cur.push(c) + rest == cur + w);
    }
}

/// A non-empty value without backslashes, quoted by `format_value`, is
/// tokenized back into exactly that value.
pub proof fn lemma_format_value_roundtrip(v: Seq<char>)
    requires
        v.len() > 0,
        forall|k: int| 0 <= k < v.len() ==> #[trigger] v[k] != '\\',
    ensures
        spec_parse_filter(spec_format_value(v)) == Ok::<Seq<Seq<char>>, Seq<char>>(seq![v]),
{
    let e = escape_quotes(v);
    let cs = spec_format_value(v);
    assert(cs[0] == '\'');
    assert(!spec_is_whitespace('\''));
    assert(cs.len() == 2 + e.len());
    assert(spec_parse_filter(cs) == scan(cs, 1, Some('\''), Seq::empty(), Seq::empty()));
    assert(cs.subrange(1, 1 + e.len() as int) == e);
    lemma_scan_quoted_run(cs, 1, v, Seq::empty(), Seq::empty());
    assert(Seq::<char>::empty() + v == v);
    assert(cs[1 + e.len() as int] == '\'');
    assert(scan(cs, (1 + e.len()) as nat, Some('\''), v, Seq::empty()) == scan(cs, (2 + e.len()) as nat, None, v, Seq::empty()));
    assert(Seq::<Seq<char>>::empty().push(v) == seq![v]);
}

/// A token as a query's text writes it: plain characters, then the value,
/// between single quotes (by `format_value`) when `quoted`.
pub open spec fn written_token(prefix: Seq<char>, value: Seq<char>, quoted: bool) -> Seq<char> {
    prefix + if quoted { spec_format_value(value) } else { value }
}

/// A written token that the tokenizer reads back as `prefix + value`: the
/// prefix is non-empty and plain, and the value is plain, or, when quoted,
/// free of backslashes.
pub open spec fn reads_back(prefix: Seq<char>, value: Seq<char>, quoted: bool) -> bool {
    &&& prefix.len() > 0
    &&& forall|k: int| 0 <= k < prefix.len() ==> is_plain_char(#[trigger] prefix[k])
    &&& if quoted {
        forall|k: int| 0 <= k < value.len() ==> #[trigger] value[k] != '\\'
    } else {
        forall|k: int| 0 <= k < value.len() ==> is_plain_char(#[trigger] value[k])
    }
}

proof fn lemma_scan_written(
    cs: Seq<char>,
    i: nat,
    prefix: Seq<char>,
    value: Seq<char>,
    quoted: bool,
    acc: Seq<Seq<char>>,
)
    requires
        reads_back(prefix, value, quoted),
        i + written_token(prefix, value, quoted).len() <= cs.len(),
        cs.subrange(i as int, i + written_token(prefix, value, quoted).len() as int) == written_token(prefix, value, quoted),
    ensures
        scan(cs, i, None, Seq::empty(), acc)
            == scan(cs, i + written_token(prefix, value, quoted).len(), None, prefix + value, acc),
{
    let w = written_token(prefix, value, quoted);
    let ii: int = i as int;
    let wl: int = w.len() as int;
    let pl: int = prefix.len() as int;
    let p: int = ii + pl;
    let whole = cs.subrange(ii, ii + wl);
    assert(cs.subrange(ii, p) == prefix) by {
        assert(cs.subrange(ii, p) == whole.subrange(0, pl));
    }
    lemma_scan_plain_run(cs, i, prefix, Seq::empty(), acc);
    assert(Seq::<char>::empty() + prefix == prefix);
    if quoted {
        let e = escape_quotes(value);
        let el: int = e.len() as int;
        assert(spec_format_value(value).len() == el + 2);
        assert(cs[p] == '\'') by {
            assert(cs[p] == whole[pl]);
        }
        assert(!spec_is_whitespace('\''));
        assert(scan(cs, p as nat, None, prefix, acc) == scan(cs, (p + 1) as nat, Some('\''), prefix, acc));
        assert(cs.subrange(p + 1, p + 1 + el) == e) by {
            assert(cs.subrange(p + 1, p + 1 + el) == whole.subrange(pl + 1, pl + 1 + el));
        }
        lemma_scan_quoted_run(cs, (p + 1) as nat, value, prefix, acc);
        let q: int = p + 1 + el;
        assert(cs[q] == '\'') by {
            assert(cs[q] == whole[pl + 1 + el]);
        }
        assert(scan(cs, q as nat, Some('\''), prefix + value, acc) == scan(cs, (q + 1) as nat, None, prefix + value, acc));
    } else {
        let vl: int = value.len() as int;
        assert(cs.subrange(p, p + vl) == value) by {
            assert(cs.subrange(p, p + vl) == whole.subrange(pl, wl));
        }
        lemma_scan_plain_run(cs, p as nat, value, prefix, acc);
    }
}

proof fn lemma_scan_written_join(
    cs: Seq<char>,
    i: nat,
    ps: Seq<Seq<char>>,
    vs: Seq<Seq<char>>,
    qs: Seq<bool>,
    acc: Seq<Seq<char>>,
)
    requires
        ps.len() == vs.len() == qs.len(),
        forall|k: int| 0 <= k < ps.len() ==> reads_back(#[trigger] ps[k], vs[k], qs[k]),
        i <= cs.len(),
        cs.subrange(i as int, cs.len() as int)
            == join_tokens(Seq::new(ps.len(), |k: int| written_token(ps[k], vs[k], qs[k]))),
    ensures
        scan(cs, i, None, Seq::empty(), acc)
            == Ok::<Seq<Seq<char>>, Seq<char>>(acc + Seq::new(ps.len(), |k: int| ps[k] + vs[k])),
    decreases ps.len(),
{
    let ws = Seq::new(ps.len(), |k: int| written_token(ps[k], vs[k], qs[k]));
    let ts = Seq::new(ps.len(), |k: int| ps[k] + vs[k]);
    if ps.len() == 0 {
        assert(acc + ts == acc);
    } else {
        let w0 = ws[0];
        assert(reads_back(ps[0], vs[0], qs[0]));
        let t0 = ps[0] + vs[0];
        assert(t0.len() > 0);
        if ps.len() == 1 {
            assert(cs.subrange(i as int, cs.len() as int) == w0);
            lemma_scan_written(cs, i, ps[0], vs[0], qs[0], acc);
            assert(acc + ts == acc.push(t0));
        } else {
            let ws_rest = ws.drop_first();
            let j = join_tokens(ws_rest);
            assert(join_tokens(ws) == w0 + seq![' '] + j);
            assert(cs.subrange(i as int, (i + w0.len()) as int) == w0) by {
                assert(cs.subrange(i as int, (i + w0.len()) as int) == cs.subrange(i as int, cs.len() as int).subrange(0, w0.len() as int));
            }
            lemma_scan_written(cs, i, ps[0], vs[0], qs[0], acc);
            let p = i + w0.len();
            assert(cs[p as int] == ' ') by {
                assert(cs[p as int] == cs.subrange(i as int, cs.len() as int)[w0.len() as int]);
            }
            assert(spec_is_whitespace(' '));
            assert(scan(cs, p as nat, None, t0, acc) == scan(cs, (p + 1) as nat, None, Seq::empty(), acc.push(t0)));
            let ps2 = ps.drop_first();
            let vs2 = vs.drop_first();
            let qs2 = qs.drop_first();
            assert forall|k: int| 0 <= k < ps2.len() implies reads_back(#[trigger] ps2[k], vs2[k], qs2[k]) by {
                assert(ps2[k] == ps[k + 1] && vs2[k] == vs[k + 1] && qs2[k] == qs[k + 1]);
            }
            assert(Seq::new(ps2.len(), |k: int| written_token(ps2[k], vs2[k], qs2[k])) == ws_rest);
            assert(cs.subrange(p + 1 as int, cs.len() as int) == j) by {
                assert(cs.subrange(p + 1 as int, cs.len() as int) == cs.subrange(i as int, cs.len() as int).subrange(w0.len() + 1 as int, (cs.len() - i) as int));
            }
            lemma_scan_written_join(cs, (p + 1) as nat, ps2, vs2, qs2, acc.push(t0));
            assert(acc.push(t0) + Seq::new(ps2.len(), |k: int| ps2[k] + vs2[k]) == acc + ts);
        }
    }
}

/// Written tokens joined by single spaces are tokenized back into their
/// prefixes followed by their values, unquoted.
pub proof fn lemma_parse_written_tokens(ps: Seq<Seq<char>>, vs: Seq<Seq<char>>, qs: Seq<bool>)
    requires
        ps.len() == vs.len() == qs.len(),
        forall|k: int| 0 <= k < ps.len() ==> reads_back(#[trigger] ps[k], vs[k], qs[k]),
    ensures
        spec_parse_filter(join_tokens(Seq::new(ps.len(), |k: int| written_token(ps[k], vs[k], qs[k]))))
            == Ok::<Seq<Seq<char>>, Seq<char>>(Seq::new(ps.len(), |k: int| ps[k] + vs[k])),
{
    let cs = join_tokens(Seq::new(ps.len(), |k: int| written_token(ps[k], vs[k], qs[k])));
    assert(cs.subrange(0, cs.len() as int) == cs);
    lemma_scan_written_join(cs, 0, ps, vs, qs, Seq::empty());
    assert(Seq::<Seq<char>>::empty() + Seq::new(ps.len(), |k: int| ps[k] + vs[k]) == Seq::new(ps.len(), |k: int| ps[k] + vs[k]));
}

/// The words of `cs[i..]`, given the word `cur` being read and the words
/// `acc` already read: the maximal runs of characters that are not
/// whitespace, in order (what `str::split_whitespace` yields).
pub open spec fn words_from(cs: Seq<char>, i: nat, cur: Seq<char>, acc: Seq<Seq<char>>) -> Seq<Seq<char>>
    decreases cs.len() - i,
{
    if i >= cs.len() {
        if cur.len() > 0 { acc.push(cur) } else { acc }
    } else if spec_is_whitespace(cs[i as int]) {
        if cur.len() > 0 {
            words_from(cs, i + 1, Seq::empty(), acc.push(cur))
        } else {
            words_from(cs, i + 1, cur, acc)
        }
    } else {
        words_from(cs, i + 1, cur.push(cs[i as int]), acc)
    }
}

/// The whitespace-separated words of `cs`.
pub open spec fn whitespace_words(cs: Seq<char>) -> Seq<Seq<char>> {
    words_from(cs, 0, Seq::empty(), Seq::empty())
}

proof fn lemma_scan_words(cs: Seq<char>, i: nat, cur: Seq<char>, acc: Seq<Seq<char>>)
    requires
        forall|k: int| 0 <= k < cs.len() ==> #[trigger] cs[k] != '\\' && !is_quote(cs[k]),
    ensures
        scan(cs, i, None, cur, acc) == Ok::<Seq<Seq<char>>, Seq<char>>(words_from(cs, i, cur, acc)),
    decreases cs.len() - i,
{
    if i < cs.len() {
        let c = cs[i as int];
        assert(c != '\\' && !is_quote(c));
        if spec_is_whitespace(c) {
            if cur.len() > 0 {
                lemma_scan_words(cs, i + 1, Seq::empty(), acc.push(cur));
            } else {
                lemma_scan_words(cs, i + 1, cur, acc);
            }
        } else {
            lemma_scan_words(cs, i + 1, cur.push(c), acc);
        }
    }
}

/// Text without backslashes or quotes is tokenized into its
/// whitespace-separated words, as `str::split_whitespace` splits it.
pub proof fn lemma_parse_filter_splits_words(cs: Seq<char>)
    requires
        forall|k: int| 0 <= k < cs.len() ==> #[trigger] cs[k] != '\\' && !is_quote(cs[k]),
    ensures
        spec_parse_filter(cs) == Ok::<Seq<Seq<char>>, Seq<char>>(whitespace_words(cs)),
{
    lemma_scan_words(cs, 0, Seq::empty(), Seq::empty());
}

} // verus!
