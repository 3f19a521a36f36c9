use vstd::prelude::*;
use crate::media_query::dsl::FloatValue;
use crate::media_query::values::{DateValue, UuidValue};
use crate::text::push_all;

verus! {

/// A value bound to a placeholder of a query.
#[derive(Debug, Clone, PartialEq)]
pub enum SqlArg {
    Text(String),
    Int(i32),
    Bool(bool),
    Float(FloatValue),
    Date(DateValue),
    Uuid(UuidValue),
    /// A UTC instant, in milliseconds since the Unix epoch.
    Timestamp(i64),
}

/// A bound value as the contracts see it.
pub enum ArgView {
    Text(Seq<char>),
    Int(i32),
    Bool(bool),
    Float(Seq<char>),
    Date(DateValue),
    Uuid(UuidValue),
    Timestamp(i64),
}

impl View for SqlArg {
    type V = ArgView;

    open spec fn view(&self) -> ArgView {
        match self {
            SqlArg::Text(s) => ArgView::Text(s@),
            SqlArg::Int(i) => ArgView::Int(*i),
            SqlArg::Bool(b) => ArgView::Bool(*b),
            SqlArg::Float(f) => ArgView::Float(f@),
            SqlArg::Date(d) => ArgView::Date(*d),
            SqlArg::Uuid(u) => ArgView::Uuid(*u),
            SqlArg::Timestamp(t) => ArgView::Timestamp(*t),
        }
    }
}

/// A piece of a query: SQL text, or a placeholder with the value bound to it.
#[derive(Debug, Clone, PartialEq)]
pub enum SqlPiece {
    Text(String),
    Bind(SqlArg),
}

pub enum PieceView {
    Text(Seq<char>),
    Bind(ArgView),
}

impl View for SqlPiece {
    type V = PieceView;

    open spec fn view(&self) -> PieceView {
        match self {
            SqlPiece::Text(s) => PieceView::Text(s@),
            SqlPiece::Bind(a) => PieceView::Bind(a@),
        }
    }
}

/// The views of a sequence of pieces.
pub open spec fn piece_views(ps: Seq<SqlPiece>) -> Seq<PieceView> {
    ps.map_values(|p: SqlPiece| p@)
}

/// The SQL text of the pieces, with `?` for each bound value (the
/// placeholder of SQLite).
pub open spec fn sql_text(ps: Seq<PieceView>) -> Seq<char>
    decreases ps.len(),
{
    if ps.len() == 0 {
        Seq::empty()
    } else {
        sql_text(ps.drop_last()) + match ps.last() {
            PieceView::Text(t) => t,
            PieceView::Bind(_) => "?"@,
        }
    }
}

/// A query being built: its text and the values bound to its placeholders,
/// in order.
pub struct SqlQuery {
    pieces: Vec<SqlPiece>,
}

impl View for SqlQuery {
    type V = Seq<PieceView>;

    closed spec fn view(&self) -> Seq<PieceView> {
        piece_views(self.pieces@)
    }
}

impl SqlQuery {
    /// A query that starts with the text `sql`.
    pub fn new(sql: &str) -> (r: SqlQuery)
        ensures
            r@ == seq![PieceView::Text(sql@)],
    {
        let mut pieces: Vec<SqlPiece> = Vec::new();
        pieces.push(SqlPiece::Text(String::from_str(sql)));
        let r = SqlQuery { pieces };
        assert(r@ == seq![PieceView::Text(sql@)]);
        r
    }

    /// Appends SQL text.
    pub fn push(&mut self, sql: &str)
        ensures
            final(self)@ == old(self)@.push(PieceView::Text(sql@)),
    {
        let ghost before = self@;
        self.pieces.push(SqlPiece::Text(String::from_str(sql)));
        assert(self@ == before.push(PieceView::Text(sql@)));
    }

    /// Appends a placeholder and binds `arg` to it.
    pub fn push_bind(&mut self, arg: SqlArg)
        ensures
            final(self)@ == old(self)@.push(PieceView::Bind(arg@)),
    {
        let ghost before = self@;
        let ghost a = arg@;
        self.pieces.push(SqlPiece::Bind(arg));
        assert(self@ == before.push(PieceView::Bind(a)));
    }

    /// The text of the query so far.
    pub fn sql(&self) -> (r: String)
        ensures
            r@ == sql_text(self@),
    {
        let mut out = String::new();
        let mut i: usize = 0;
        while i < self.pieces.len()
            invariant
                i <= self.pieces@.len(),
                out@ == sql_text(piece_views(self.pieces@).take(i as int)),
            decreases self.pieces.len() - i,
        {
            let ghost ps = piece_views(self.pieces@);
            assert(ps.take(i + 1).drop_last() == ps.take(i as int));
            match &self.pieces[i] {
                SqlPiece::Text(t) => push_all(&mut out, t.as_str()),
                SqlPiece::Bind(_) => push_all(&mut out, "?"),
            }
            i = i + 1;
        }
        assert(piece_views(self.pieces@).take(self.pieces@.len() as int) == piece_views(self.pieces@));
        out
    }

    /// The pieces of the query, in order.
    pub fn pieces(&self) -> (r: &Vec<SqlPiece>)
        ensures
            piece_views(r@) == self@,
    {
        &self.pieces
    }
}

} // verus!
