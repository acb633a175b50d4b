use vstd::prelude::*;
use vstd::string::*;
use crate::text::{join, join_with};

verus! {

/// The texts of a sequence of strings.
pub open spec fn texts(v: Seq<String>) -> Seq<Seq<char>> {
    v.map_values(|s: String| s@)
}

/// "SELECT c1, c2, … FROM t", or "SELECT * FROM t" without columns.
pub open spec fn select_sql_text(table: Seq<char>, cols: Seq<Seq<char>>) -> Seq<char> {
    if cols.len() == 0 {
        "SELECT * FROM "@ + table
    } else {
        "SELECT "@ + join(cols, ", "@) + " FROM "@ + table
    }
}

/// One "?" placeholder per column.
pub open spec fn placeholders(n: nat) -> Seq<Seq<char>> {
    Seq::new(n, |i: int| "?"@)
}

/// "INSERT INTO t (c1, c2) VALUES (?, ?)", or "INSERT INTO t DEFAULT VALUES"
/// without columns.
pub open spec fn insert_sql_text(table: Seq<char>, cols: Seq<Seq<char>>) -> Seq<char> {
    if cols.len() == 0 {
        "INSERT INTO "@ + table + " DEFAULT VALUES"@
    } else {
        "INSERT INTO "@ + table + " ("@ + join(cols, ", "@) + ") VALUES ("@ + join(
            placeholders(cols.len()),
            ", "@,
        ) + ")"@
    }
}

/// "c = ?" for each column.
pub open spec fn set_clauses(cols: Seq<Seq<char>>) -> Seq<Seq<char>> {
    cols.map_values(|c: Seq<char>| c + " = ?"@)
}

/// "UPDATE t SET c1 = ?, c2 = ? WHERE pk = ?", or a comment that does nothing
/// when there is no column to set.
pub open spec fn update_sql_text(table: Seq<char>, cols: Seq<Seq<char>>, pk: Seq<char>) -> Seq<
    char,
> {
    if cols.len() == 0 {
        "-- No fields to update for table "@ + table
    } else {
        "UPDATE "@ + table + " SET "@ + join(set_clauses(cols), ", "@) + " WHERE "@ + pk
            + " = ?"@
    }
}

/// "DELETE FROM t WHERE pk = ?", or a comment that does nothing without a key.
pub open spec fn delete_sql_text(table: Seq<char>, pk: Option<Seq<char>>) -> Seq<char> {
    match pk {
        Some(k) => "DELETE FROM "@ + table + " WHERE "@ + k + " = ?"@,
        None => "-- No PK for table "@ + table,
    }
}

/// The SELECT text over all columns.
pub fn select_sql(table: &str, cols: &Vec<String>) -> (r: String)
    ensures
        r@ == select_sql_text(table@, texts(cols@)),
{
    if cols.len() == 0 {
        String::from_str("SELECT * FROM ").concat(table)
    } else {
        let list = join_with(cols, ", ");
        String::from_str("SELECT ").concat(list.as_str()).concat(" FROM ").concat(table)
    }
}

/// The INSERT text over the insertable columns, one placeholder each.
pub fn insert_sql(table: &str, cols: &Vec<String>) -> (r: String)
    ensures
        r@ == insert_sql_text(table@, texts(cols@)),
{
    if cols.len() == 0 {
        String::from_str("INSERT INTO ").concat(table).concat(" DEFAULT VALUES")
    } else {
        let mut marks: Vec<String> = Vec::new();
        let mut i: usize = 0;
        while i < cols.len()
            invariant
                i <= cols.len(),
                texts(marks@) =~= placeholders(i as nat),
            decreases cols.len() - i,
        {
            let ghost before = marks@;
            marks.push(String::from_str("?"));
            assert(texts(marks@) =~= texts(before).push("?"@));
            i = i + 1;
        }
        let list = join_with(cols, ", ");
        let qs = join_with(&marks, ", ");
        String::from_str("INSERT INTO ").concat(table).concat(" (").concat(list.as_str()).concat(
            ") VALUES (",
        ).concat(qs.as_str()).concat(")")
    }
}

/// The UPDATE text that sets the insertable columns and selects the row by its key.
pub fn update_sql(table: &str, cols: &Vec<String>, pk: &str) -> (r: String)
    ensures
        r@ == update_sql_text(table@, texts(cols@), pk@),
{
    if cols.len() == 0 {
        String::from_str("-- No fields to update for table ").concat(table)
    } else {
        let mut sets: Vec<String> = Vec::new();
        let mut i: usize = 0;
        while i < cols.len()
            invariant
                i <= cols.len(),
                texts(sets@) =~= set_clauses(texts(cols@)).subrange(0, i as int),
            decreases cols.len() - i,
        {
            let ghost before = sets@;
            sets.push(cols[i].clone().concat(" = ?"));
            assert(texts(sets@) =~= texts(before).push(cols@[i as int]@ + " = ?"@));
            i = i + 1;
        }
        assert(set_clauses(texts(cols@)).subrange(0, cols.len() as int) =~= set_clauses(
            texts(cols@),
        ));
        let list = join_with(&sets, ", ");
        String::from_str("UPDATE ").concat(table).concat(" SET ").concat(list.as_str()).concat(
            " WHERE ",
        ).concat(pk).concat(" = ?")
    }
}

/// The DELETE text that selects the row by its key.
pub fn delete_sql(table: &str, pk: Option<&str>) -> (r: String)
    ensures
        r@ == delete_sql_text(
            table@,
            match pk {
                Some(k) => Some(k@),
                None => None,
            },
        ),
{
    match pk {
        Some(k) => String::from_str("DELETE FROM ").concat(table).concat(" WHERE ").concat(
            k,
        ).concat(" = ?"),
        None => String::from_str("-- No PK for table ").concat(table),
    }
}

} // verus!
