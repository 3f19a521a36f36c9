use vstd::prelude::*;
use crate::text::push_all;

verus! {

/// `?,?,...,?` with one placeholder per column.
pub open spec fn question_marks(n: nat) -> Seq<char>
    decreases n,
{
    if n == 0 {
        Seq::empty()
    } else if n == 1 {
        "?"@
    } else {
        "?,"@ + question_marks((n - 1) as nat)
    }
}

/// The column names separated by `, `.
pub open spec fn column_list(cols: Seq<Seq<char>>) -> Seq<char>
    decreases cols.len(),
{
    if cols.len() == 0 {
        Seq::empty()
    } else if cols.len() == 1 {
        cols[0]
    } else {
        cols[0] + ", "@ + column_list(cols.drop_first())
    }
}

/// `<col> = ?,<col> = ?,...`
pub open spec fn update_set(cols: Seq<Seq<char>>) -> Seq<char>
    decreases cols.len(),
{
    if cols.len() == 0 {
        Seq::empty()
    } else if cols.len() == 1 {
        cols[0] + " = ?"@
    } else {
        cols[0] + " = ?,"@ + update_set(cols.drop_first())
    }
}

pub open spec fn str_views(v: Seq<&str>) -> Seq<Seq<char>> {
    v.map_values(|s: &str| s@)
}

/// The statement that inserts a row and gives it back.
pub open spec fn spec_insert_statement(table: Seq<char>, cols: Seq<Seq<char>>) -> Seq<char> {
    "INSERT INTO "@ + table + " ("@ + column_list(cols) + ") VALUES ("@ + question_marks(cols.len()) + ") RETURNING *"@
}

/// The statement that updates a row by its id.
pub open spec fn spec_update_statement(table: Seq<char>, cols: Seq<Seq<char>>) -> Seq<char> {
    "UPDATE "@ + table + " SET "@ + update_set(cols) + " WHERE id = ?"@
}

fn question_marks_text(n: usize) -> (r: String)
    ensures
        r@ == question_marks(n as nat),
    decreases n,
{
    if n == 0 {
        String::new()
    } else if n == 1 {
        String::from_str("?")
    } else {
        let mut out = String::from_str("?,");
        let rest = question_marks_text(n - 1);
        push_all(&mut out, rest.as_str());
        out
    }
}

fn column_list_text(cols: &[&str], i: usize) -> (r: String)
    requires
        i <= cols@.len(),
    ensures
        r@ == column_list(str_views(cols@).skip(i as int)),
    decreases cols@.len() - i,
{
    let ghost rest = str_views(cols@).skip(i as int);
    if i == cols.len() {
        String::new()
    } else if i + 1 == cols.len() {
        assert(rest[0] == cols@[i as int]@);
        String::from_str(cols[i])
    } else {
        assert(rest.drop_first() == str_views(cols@).skip(i + 1));
        assert(rest[0] == cols@[i as int]@);
        let mut out = String::from_str(cols[i]);
        push_all(&mut out, ", ");
        let tail = column_list_text(cols, i + 1);
        push_all(&mut out, tail.as_str());
        out
    }
}

fn update_set_text(cols: &[&str], i: usize) -> (r: String)
    requires
        i <= cols@.len(),
    ensures
        r@ == update_set(str_views(cols@).skip(i as int)),
    decreases cols@.len() - i,
{
    let ghost rest = str_views(cols@).skip(i as int);
    if i == cols.len() {
        String::new()
    } else if i + 1 == cols.len() {
        assert(rest[0] == cols@[i as int]@);
        let mut out = String::from_str(cols[i]);
        push_all(&mut out, " = ?");
        out
    } else {
        assert(rest.drop_first() == str_views(cols@).skip(i + 1));
        assert(rest[0] == cols@[i as int]@);
        let mut out = String::from_str(cols[i]);
        push_all(&mut out, " = ?,");
        let tail = update_set_text(cols, i + 1);
        push_all(&mut out, tail.as_str());
        out
    }
}

/// `INSERT INTO <table> (<cols>) VALUES (?,...) RETURNING *`
pub fn insert_statement(table: &str, cols: &[&str]) -> (r: String)
    ensures
        r@ == spec_insert_statement(table@, str_views(cols@)),
{
    assert(str_views(cols@).skip(0) == str_views(cols@));
    let mut out = String::from_str("INSERT INTO ");
    push_all(&mut out, table);
    push_all(&mut out, " (");
    let list = column_list_text(cols, 0);
    push_all(&mut out, list.as_str());
    push_all(&mut out, ") VALUES (");
    let marks = question_marks_text(cols.len());
    push_all(&mut out, marks.as_str());
    push_all(&mut out, ") RETURNING *");
    out
}

/// `UPDATE <table> SET <col> = ?,... WHERE id = ?`
pub fn update_statement(table: &str, cols: &[&str]) -> (r: String)
    ensures
        r@ == spec_update_statement(table@, str_views(cols@)),
{
    assert(str_views(cols@).skip(0) == str_views(cols@));
    let mut out = String::from_str("UPDATE ");
    push_all(&mut out, table);
    push_all(&mut out, " SET ");
    let set = update_set_text(cols, 0);
    push_all(&mut out, set.as_str());
    push_all(&mut out, " WHERE id = ?");
    out
}

} // verus!
