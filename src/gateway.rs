use vstd::prelude::*;
use crate::store::fresh_entry_id;

verus! {

/// The items joined with `sep` between each two of them.
pub open spec fn joined(items: Seq<Seq<char>>, sep: Seq<char>) -> Seq<char>
    decreases items.len(),
{
    if items.len() == 0 {
        Seq::empty()
    } else if items.len() == 1 {
        items[0]
    } else {
        joined(items.drop_last(), sep) + sep + items.last()
    }
}

pub open spec fn texts(items: Seq<String>) -> Seq<Seq<char>> {
    items.map_values(|s: String| s@)
}

/// `INSERT INTO t (c1, c2) VALUES (?, ?)`: one placeholder per column.
pub open spec fn insert_sql_of(table: Seq<char>, columns: Seq<Seq<char>>) -> Seq<char> {
    "INSERT INTO "@ + table + " ("@ + joined(columns, ", "@) + ") VALUES ("@
        + joined(Seq::new(columns.len(), |i: int| "?"@), ", "@) + ")"@
}

/// `UPDATE t SET c1 = ?, c2 = ? WHERE id = ?`.
pub open spec fn update_sql_of(table: Seq<char>, columns: Seq<Seq<char>>) -> Seq<char> {
    "UPDATE "@ + table + " SET "@ + joined(columns.map_values(|c: Seq<char>| c + " = ?"@), ", "@) + " WHERE id = ?"@
}

/// `DELETE FROM t WHERE id = ?`.
pub open spec fn delete_sql_of(table: Seq<char>) -> Seq<char> {
    "DELETE FROM "@ + table + " WHERE id = ?"@
}

/// Appends `pieces[i]` + `suffix` for each i, with `sep` between them.
fn append_joined(out: &mut String, pieces: &Vec<String>, suffix: &str, sep: &str)
    ensures
        final(out)@ == old(out)@ + joined(texts(pieces@).map_values(|c: Seq<char>| c + suffix@), sep@),
{
    let ghost items = texts(pieces@).map_values(|c: Seq<char>| c + suffix@);
    let mut i: usize = 0;
    while i < pieces.len()
        invariant
            i <= pieces@.len(),
            items == texts(pieces@).map_values(|c: Seq<char>| c + suffix@),
            out@ == old(out)@ + joined(items.subrange(0, i as int), sep@),
        decreases pieces@.len() - i,
    {
        let ghost before = out@;
        if i > 0 {
            out.append(sep);
        }
        out.append(pieces[i].as_str());
        out.append(suffix);
        proof {
            let next = items.subrange(0, i + 1);
            assert(next.drop_last() =~= items.subrange(0, i as int));
            assert(next.last() == pieces@[i as int]@ + suffix@);
            if i == 0 {
                assert(joined(items.subrange(0, 0), sep@) =~= Seq::<char>::empty());
            }
            assert(out@ =~= old(out)@ + joined(next, sep@));
        }
        i = i + 1;
    }
    assert(items.subrange(0, i as int) =~= items);
}

/// The statement that inserts one record with the given columns.
pub fn insert_sql(table: &str, columns: &Vec<String>) -> (r: String)
    ensures
        r@ == insert_sql_of(table@, texts(columns@)),
{
    let mut sql = String::from_str("INSERT INTO ");
    sql.append(table);
    sql.append(" (");
    append_joined(&mut sql, columns, "", ", ");
    sql.append(") VALUES (");
    let mut marks: Vec<String> = Vec::new();
    let mut i: usize = 0;
    while i < columns.len()
        invariant
            i <= columns@.len(),
            marks@.len() == i,
            forall|k: int| 0 <= k < i ==> (#[trigger] marks@[k])@ == "?"@,
        decreases columns@.len() - i,
    {
        marks.push(String::from_str("?"));
        i = i + 1;
    }
    append_joined(&mut sql, &marks, "", ", ");
    sql.append(")");
    proof {
        reveal_strlit("");
        assert forall|k: int| 0 <= k < columns@.len() implies texts(columns@)[k] + ""@ == texts(columns@)[k] by {
            assert(texts(columns@)[k] + ""@ =~= texts(columns@)[k]);
        }
        assert forall|k: int| 0 <= k < marks@.len() implies texts(marks@)[k] + ""@ == "?"@ by {
            assert(texts(marks@)[k] + ""@ =~= texts(marks@)[k]);
        }
        assert(texts(columns@).map_values(|c: Seq<char>| c + ""@) =~= texts(columns@));
        assert(texts(marks@).map_values(|c: Seq<char>| c + ""@) =~= Seq::new(columns@.len(), |i: int| "?"@));
    }
    sql
}

/// The statement that updates the given columns of the record with a given id.
pub fn update_sql(table: &str, columns: &Vec<String>) -> (r: String)
    ensures
        r@ == update_sql_of(table@, texts(columns@)),
{
    let mut sql = String::from_str("UPDATE ");
    sql.append(table);
    sql.append(" SET ");
    append_joined(&mut sql, columns, " = ?", ", ");
    sql.append(" WHERE id = ?");
    sql
}

/// The statement that deletes the record with a given id.
pub fn delete_sql(table: &str) -> (r: String)
    ensures
        r@ == delete_sql_of(table@),
{
    let mut sql = String::from_str("DELETE FROM ");
    sql.append(table);
    sql.append(" WHERE id = ?");
    sql
}

/// The id of a record about to be inserted: the one it carries as text,
/// else a fresh one.
pub fn record_id_for_insert(given: Option<String>) -> (r: String)
    ensures
        given is Some ==> r == given->0,
{
    match given {
        Some(id) => id,
        None => fresh_entry_id(),
    }
}

} // verus!
