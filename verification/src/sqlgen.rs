//! Parameterized SQL text for the five operations. Identifiers are
//! spliced into the text inside double quotes (parameter binding cannot
//! carry identifiers) and must pass the identifier syntax check, which
//! keeps quotes and every other metacharacter out of them; values are
//! always left to bound `?` placeholders, never interpolated.

use vstd::prelude::*;
use crate::strutil::is_identifier;

verus! {

/// The column-name views of a list of column names.
pub open spec fn col_views(cols: Seq<String>) -> Seq<Seq<char>> {
    Seq::new(cols.len(), |i: int| cols[i]@)
}

/// All column names pass the identifier check.
pub open spec fn all_identifiers(cols: Seq<Seq<char>>) -> bool {
    forall|i: int| 0 <= i < cols.len() ==> is_identifier(#[trigger] cols[i])
}

pub open spec fn spec_count_sql(t: Seq<char>) -> Seq<char> {
    "SELECT COUNT(*) as count FROM \""@ + t + "\""@
}

pub open spec fn spec_list_sql(t: Seq<char>) -> Seq<char> {
    "SELECT * FROM \""@ + t + "\" LIMIT ? OFFSET ?"@
}

pub open spec fn spec_select_one_sql(t: Seq<char>) -> Seq<char> {
    "SELECT * FROM \""@ + t + "\" WHERE id = ?"@
}

pub open spec fn spec_delete_sql(t: Seq<char>) -> Seq<char> {
    "DELETE FROM \""@ + t + "\" WHERE id = ?"@
}

/// `"c1", "c2", ...`: the quoted column list of an insert.
pub open spec fn quoted_cols(cols: Seq<Seq<char>>) -> Seq<char>
    decreases cols.len(),
{
    if cols.len() == 0 {
        Seq::empty()
    } else if cols.len() == 1 {
        "\""@ + cols[0] + "\""@
    } else {
        quoted_cols(cols.drop_last()) + ", \""@ + cols.last() + "\""@
    }
}

/// `?, ?, ...`: one placeholder per column.
pub open spec fn placeholders(n: int) -> Seq<char>
    decreases n,
{
    if n <= 0 {
        Seq::empty()
    } else if n == 1 {
        "?"@
    } else {
        placeholders(n - 1) + ", ?"@
    }
}

/// `"c1" = ?, "c2" = ?, ...`: the SET clause of an update.
pub open spec fn set_clause(cols: Seq<Seq<char>>) -> Seq<char>
    decreases cols.len(),
{
    if cols.len() == 0 {
        Seq::empty()
    } else if cols.len() == 1 {
        "\""@ + cols[0] + "\" = ?"@
    } else {
        set_clause(cols.drop_last()) + ", \""@ + cols.last() + "\" = ?"@
    }
}

pub open spec fn spec_insert_sql(t: Seq<char>, cols: Seq<Seq<char>>) -> Seq<char> {
    "INSERT INTO \""@ + t + "\" ("@ + quoted_cols(cols) + ") VALUES ("@ + placeholders(
        cols.len() as int,
    ) + ") RETURNING *"@
}

pub open spec fn spec_update_sql(t: Seq<char>, cols: Seq<Seq<char>>) -> Seq<char> {
    "UPDATE \""@ + t + "\" SET "@ + set_clause(cols) + " WHERE id = ? RETURNING *"@
}

/// `SELECT COUNT(*) as count FROM "T"`.
pub fn count_sql(table: &str) -> (r: String)
    requires
        is_identifier(table@),
    ensures
        r@ == spec_count_sql(table@),
{
    let mut s = String::from_str("SELECT COUNT(*) as count FROM \"");
    s.append(table);
    s.append("\"");
    s
}

/// `SELECT * FROM "T" LIMIT ? OFFSET ?`.
pub fn list_sql(table: &str) -> (r: String)
    requires
        is_identifier(table@),
    ensures
        r@ == spec_list_sql(table@),
{
    let mut s = String::from_str("SELECT * FROM \"");
    s.append(table);
    s.append("\" LIMIT ? OFFSET ?");
    s
}

/// `SELECT * FROM "T" WHERE id = ?`.
pub fn select_one_sql(table: &str) -> (r: String)
    requires
        is_identifier(table@),
    ensures
        r@ == spec_select_one_sql(table@),
{
    let mut s = String::from_str("SELECT * FROM \"");
    s.append(table);
    s.append("\" WHERE id = ?");
    s
}

/// `DELETE FROM "T" WHERE id = ?`.
pub fn delete_sql(table: &str) -> (r: String)
    requires
        is_identifier(table@),
    ensures
        r@ == spec_delete_sql(table@),
{
    let mut s = String::from_str("DELETE FROM \"");
    s.append(table);
    s.append("\" WHERE id = ?");
    s
}

/// `INSERT INTO "T" ("c1", ...) VALUES (?, ...) RETURNING *`, parameter
/// order matching the column order exactly.
pub fn insert_sql(table: &str, cols: &Vec<String>) -> (r: String)
    requires
        is_identifier(table@),
        all_identifiers(col_views(cols@)),
    ensures
        r@ == spec_insert_sql(table@, col_views(cols@)),
{
    let ghost cv = col_views(cols@);
    let mut s = String::from_str("INSERT INTO \"");
    s.append(table);
    s.append("\" (");
    let n = cols.len();
    let mut i: usize = 0;
    while i < n
        invariant
            0 <= i <= n,
            n == cols@.len(),
            cv == col_views(cols@),
            cv.len() == n,
            s@ == "INSERT INTO \""@ + table@ + "\" ("@ + quoted_cols(cv.take(i as int)),
        decreases n - i,
    {
        proof {
            assert(cv.take(i + 1).drop_last() =~= cv.take(i as int));
            assert(cv.take(i + 1).last() == cv[i as int]);
            assert(cv[i as int] == cols@[i as int]@);
        }
        if i > 0 {
            s.append(", \"");
        } else {
            s.append("\"");
        }
        s.append(cols[i].as_str());
        s.append("\"");
        proof {
            if i == 0 {
                assert(quoted_cols(cv.take(1)) =~= "\""@ + cv[0] + "\""@);
            }
            assert(s@ =~= "INSERT INTO \""@ + table@ + "\" ("@ + quoted_cols(cv.take(i + 1)));
        }
        i = i + 1;
    }
    proof {
        assert(cv.take(n as int) =~= cv);
    }
    s.append(") VALUES (");
    let mut k: usize = 0;
    let ghost mid = "INSERT INTO \""@ + table@ + "\" ("@ + quoted_cols(cv) + ") VALUES ("@;
    while k < n
        invariant
            0 <= k <= n,
            s@ == mid + placeholders(k as int),
        decreases n - k,
    {
        if k > 0 {
            s.append(", ?");
        } else {
            s.append("?");
        }
        proof {
            assert(s@ =~= mid + placeholders(k + 1));
        }
        k = k + 1;
    }
    s.append(") RETURNING *");
    proof {
        assert(s@ =~= spec_insert_sql(table@, col_views(cols@)));
    }
    s
}

/// `UPDATE "T" SET "c1" = ?, ... WHERE id = ? RETURNING *`: parameters
/// are the column values in order, followed by the identifier.
pub fn update_sql(table: &str, cols: &Vec<String>) -> (r: String)
    requires
        is_identifier(table@),
        all_identifiers(col_views(cols@)),
    ensures
        r@ == spec_update_sql(table@, col_views(cols@)),
{
    let ghost cv = col_views(cols@);
    let mut s = String::from_str("UPDATE \"");
    s.append(table);
    s.append("\" SET ");
    let n = cols.len();
    let mut i: usize = 0;
    while i < n
        invariant
            0 <= i <= n,
            n == cols@.len(),
            cv == col_views(cols@),
            cv.len() == n,
            s@ == "UPDATE \""@ + table@ + "\" SET "@ + set_clause(cv.take(i as int)),
        decreases n - i,
    {
        proof {
            assert(cv.take(i + 1).drop_last() =~= cv.take(i as int));
            assert(cv.take(i + 1).last() == cv[i as int]);
            assert(cv[i as int] == cols@[i as int]@);
        }
        if i > 0 {
            s.append(", \"");
        } else {
            s.append("\"");
        }
        s.append(cols[i].as_str());
        s.append("\" = ?");
        proof {
            if i == 0 {
                assert(set_clause(cv.take(1)) =~= "\""@ + cv[0] + "\" = ?"@);
            }
            assert(s@ =~= "UPDATE \""@ + table@ + "\" SET "@ + set_clause(cv.take(i + 1)));
        }
        i = i + 1;
    }
    proof {
        assert(cv.take(n as int) =~= cv);
    }
    s.append(" WHERE id = ? RETURNING *");
    proof {
        assert(s@ =~= spec_update_sql(table@, col_views(cols@)));
    }
    s
}

} // verus!
