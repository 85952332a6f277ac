//! The schema doctor: diagnostics that report the live shape of a table
//! against the expected one, and a repair that removes a known obsolete
//! column without touching anything else. The live repair drops the column
//! in one atomic statement; the shadow-table rebuild, the portable fallback
//! for engines that cannot drop a column, is kept here in its pure form.

use vstd::prelude::*;
use vstd::string::StringExecFns;
use crate::db::{
    columns_distinct, db_drop_nodes_type_column, db_images_columns, db_nodes_columns,
    images_columns_of, images_of, nodes_columns_of, nodes_row_count_of, spaces_columns_of,
    spec_col_index, spec_nodes_columns,
};
use crate::mime::str_eq;

verus! {

pub const MSG_IMAGES_OK: &'static str = "OK: images table has the expected schema.";

pub const MSG_IMAGES_TABLE_MISSING: &'static str =
    "ERROR: images table does not exist. To fix: delete the database file and restart the app.";

pub const MSG_IMAGES_MISSING_FILE_PATH: &'static str =
    "ERROR: images table exists but is missing the 'file_path' column. To fix: delete the database file and restart the app.";

pub const MSG_NODES_OK: &'static str = "nodes schema OK (no 'type' column)";

pub const MSG_NODES_REPAIRED: &'static str = "Repaired nodes schema (removed 'type' column)";

/// Whether a column list contains the given name.
pub fn columns_contain(cols: &Vec<String>, name: &str) -> (r: bool)
    ensures
        r == cols.deep_view().contains(name@),
{
    let mut i: usize = 0;
    while i < cols.len()
        invariant
            i <= cols.len(),
            forall|k: int| 0 <= k < i ==> cols.deep_view()[k] != name@,
        decreases cols.len() - i,
    {
        if str_eq(cols[i].as_str(), name) {
            assert(cols.deep_view()[i as int] == name@);
            return true;
        }
        i += 1;
    }
    false
}

/// A column list joined with `", "` between the names.
pub open spec fn spec_join_comma(cols: Seq<Seq<char>>) -> Seq<char>
    decreases cols.len(),
{
    if cols.len() == 0 {
        Seq::empty()
    } else if cols.len() == 1 {
        cols[0]
    } else {
        spec_join_comma(cols.drop_last()) + ", "@ + cols.last()
    }
}

/// Join a column list with `", "` between the names.
pub fn join_comma(cols: &Vec<String>) -> (r: String)
    ensures
        r@ == spec_join_comma(cols.deep_view()),
{
    let ghost dv = cols.deep_view();
    let mut out = String::new();
    let mut i: usize = 0;
    while i < cols.len()
        invariant
            i <= cols.len(),
            dv == cols.deep_view(),
            out@ == spec_join_comma(dv.take(i as int)),
        decreases cols.len() - i,
    {
        if i > 0 {
            out.append(", ");
        }
        out.append(cols[i].as_str());
        proof {
            assert(dv.take(i + 1).len() == i + 1);
            assert(dv.take(i + 1).drop_last() =~= dv.take(i as int));
            assert(dv.take(i + 1).last() == dv[i as int]);
            assert(out@ =~= spec_join_comma(dv.take(i + 1)));
        }
        i += 1;
    }
    proof {
        assert(dv.take(cols.len() as int) =~= dv);
    }
    out
}

/// The diagnostic verdict on the `images` table, from its column list.
pub open spec fn spec_images_verdict(cols: Seq<Seq<char>>) -> Seq<char> {
    if cols.len() == 0 {
        MSG_IMAGES_TABLE_MISSING@
    } else if cols.contains("file_path"@) {
        MSG_IMAGES_OK@
    } else {
        MSG_IMAGES_MISSING_FILE_PATH@
    }
}

/// Inspect the live `images` table and report whether it exists and carries
/// the required `file_path` column.
pub fn check_database_schema(conn: &rusqlite::Connection) -> (r: Result<String, String>)
    ensures
        r is Ok ==> (r->Ok_0)@ == spec_images_verdict(images_columns_of(*conn)),
{
    let cols = db_images_columns(conn)?;
    if cols.len() == 0 {
        Ok(String::from_str(MSG_IMAGES_TABLE_MISSING))
    } else if columns_contain(&cols, "file_path") {
        Ok(String::from_str(MSG_IMAGES_OK))
    } else {
        Ok(String::from_str(MSG_IMAGES_MISSING_FILE_PATH))
    }
}

/// The diagnostic verdict on the `nodes` table, from its column list: the
/// names present and whether the obsolete `type` column is among them.
pub open spec fn spec_nodes_verdict(cols: Seq<Seq<char>>) -> Seq<char> {
    "nodes columns: "@ + spec_join_comma(cols) + (if cols.contains("type"@) {
        "; contains 'type': true"@
    } else {
        "; contains 'type': false"@
    })
}

/// Inspect the live `nodes` table and report its column names and whether
/// the obsolete `type` column is present.
pub fn check_nodes_schema(conn: &rusqlite::Connection) -> (r: Result<String, String>)
    ensures
        r is Ok ==> (r->Ok_0)@ == spec_nodes_verdict(nodes_columns_of(*conn)),
{
    let cols = db_nodes_columns(conn)?;
    let mut out = String::from_str("nodes columns: ");
    let joined = join_comma(&cols);
    out.append(joined.as_str());
    if columns_contain(&cols, "type") {
        out.append("; contains 'type': true");
    } else {
        out.append("; contains 'type': false");
    }
    proof {
        assert(out@ =~= spec_nodes_verdict(nodes_columns_of(*conn)));
    }
    Ok(out)
}

/// What repair does to the `nodes` column list: exactly the obsolete `type`
/// column leaves a table that carries it; any other table is left untouched.
pub open spec fn spec_repair_columns(cols: Seq<Seq<char>>) -> Seq<Seq<char>> {
    if cols.contains("type"@) {
        cols.remove(spec_col_index(cols, "type"@))
    } else {
        cols
    }
}

/// Repair the `nodes` table: when the obsolete `type` column is present,
/// exactly that column is dropped, keeping every other column, every row and
/// the table's indexes and references (no data loss); when it is absent the
/// store is not touched at all and the no-op is reported as success. A
/// failure leaves the table exactly as it was.
pub fn repair_nodes_schema(conn: &mut rusqlite::Connection) -> (r: Result<String, String>)
    ensures
        r is Ok ==> nodes_columns_of(*final(conn)) == spec_repair_columns(
            nodes_columns_of(*old(conn)),
        ),
        r is Err ==> nodes_columns_of(*final(conn)) == nodes_columns_of(*old(conn)),
        nodes_row_count_of(*final(conn)) == nodes_row_count_of(*old(conn)),
        spaces_columns_of(*final(conn)) == spaces_columns_of(*old(conn)),
        images_columns_of(*final(conn)) == images_columns_of(*old(conn)),
        images_of(*final(conn)) == images_of(*old(conn)),
        r is Ok ==> (r->Ok_0)@ == (if nodes_columns_of(*old(conn)).contains("type"@) {
            MSG_NODES_REPAIRED@
        } else {
            MSG_NODES_OK@
        }),
{
    let cols = db_nodes_columns(conn)?;
    if columns_contain(&cols, "type") {
        db_drop_nodes_type_column(conn)?;
        Ok(String::from_str(MSG_NODES_REPAIRED))
    } else {
        Ok(String::from_str(MSG_NODES_OK))
    }
}

/// A freshly migrated `nodes` table never needs repair: the created column
/// list lacks the obsolete column, so repair is a no-op on it.
pub proof fn lemma_desired_columns_lack_type()
    ensures
        !spec_nodes_columns().contains("type"@),
        spec_repair_columns(spec_nodes_columns()) == spec_nodes_columns(),
{
    reveal_strlit("type");
    reveal_strlit("id");
    reveal_strlit("space_id");
    reveal_strlit("parent_id");
    reveal_strlit("name");
    reveal_strlit("content");
    reveal_strlit("is_open");
    reveal_strlit("is_pinned");
    reveal_strlit("sort_order");
    reveal_strlit("created_at");
    reveal_strlit("updated_at");
    assert("name"@[0] != "type"@[0]);
    assert(forall|i: int|
        0 <= i < spec_nodes_columns().len() ==> #[trigger] spec_nodes_columns()[i] != "type"@);
}

/// Schema-repair idempotence: repairing a table that already lacks the
/// obsolete column is a no-op, and repairing twice yields exactly the column
/// list that repairing once yields, the column being gone after the first.
pub proof fn lemma_repair_idempotent(cols: Seq<Seq<char>>)
    requires
        columns_distinct(cols),
    ensures
        !cols.contains("type"@) ==> spec_repair_columns(cols) == cols,
        spec_repair_columns(spec_repair_columns(cols)) == spec_repair_columns(cols),
{
    if cols.contains("type"@) {
        lemma_removed_column_gone(cols, "type"@);
    }
}


/// A live table as the doctor reasons about it: column names in order, and
/// rows each aligned with the columns.
pub struct TableModel {
    pub columns: Vec<String>,
    pub rows: Vec<Vec<String>>,
}

impl TableModel {
    /// Every row holds one value per column.
    pub open spec fn wf(&self) -> bool {
        forall|i: int|
            0 <= i < self.rows@.len() ==> (#[trigger] self.rows@[i])@.len()
                == self.columns@.len()
    }
}

/// The position of the first column with the given name, if any.
fn find_column(cols: &Vec<String>, name: &str) -> (r: Option<usize>)
    ensures
        r is Some ==> (r->Some_0 as int) < cols.deep_view().len() && cols.deep_view()[r->Some_0 as int]
            == name@,
        r is None ==> forall|k: int| 0 <= k < cols.deep_view().len() ==> cols.deep_view()[k] != name@,
{
    let mut i: usize = 0;
    while i < cols.len()
        invariant
            i <= cols.len(),
            forall|k: int| 0 <= k < i ==> cols.deep_view()[k] != name@,
        decreases cols.len() - i,
    {
        if str_eq(cols[i].as_str(), name) {
            return Some(i);
        }
        i += 1;
    }
    None
}

/// Clone a list of strings.
fn clone_string_vec(v: &Vec<String>) -> (r: Vec<String>)
    ensures
        r.deep_view() == v.deep_view(),
{
    let mut out: Vec<String> = Vec::new();
    let mut i: usize = 0;
    while i < v.len()
        invariant
            i <= v.len(),
            out@.len() == i,
            forall|p: int| 0 <= p < i ==> (#[trigger] out@[p])@ == v@[p]@,
        decreases v.len() - i,
    {
        let ghost pre = out@;
        out.push(v[i].clone());
        proof {
            assert(out@ == pre.push(v@[i as int]));
            assert forall|p: int| 0 <= p < i + 1 implies (#[trigger] out@[p])@ == v@[p]@ by {
                if p < i {
                    assert(out@[p] == pre[p]);
                } else {
                    assert(out@[p] == v@[i as int]);
                }
            }
        }
        i += 1;
    }
    proof {
        assert(out.deep_view() =~= v.deep_view());
    }
    out
}

/// Copy a list of strings, leaving out the value at position `k`.
fn remove_string_at(v: &Vec<String>, k: usize) -> (r: Vec<String>)
    requires
        (k as int) < v@.len(),
    ensures
        r.deep_view() == v.deep_view().remove(k as int),
{
    let mut out: Vec<String> = Vec::new();
    let mut i: usize = 0;
    while i < v.len()
        invariant
            i <= v.len(),
            (k as int) < v@.len(),
            out@.len() == if i <= k {
                i as int
            } else {
                i - 1
            },
            forall|p: int| 0 <= p < out@.len() && p < k ==> (#[trigger] out@[p])@ == v@[p]@,
            forall|p: int| k <= p < out@.len() ==> (#[trigger] out@[p])@ == v@[p + 1]@,
        decreases v.len() - i,
    {
        if i != k {
            let ghost pre = out@;
            out.push(v[i].clone());
            proof {
                assert(out@ == pre.push(v@[i as int]));
                assert forall|p: int| 0 <= p < out@.len() && p < k implies (#[trigger] out@[p])@
                    == v@[p]@ by {
                    if p < pre.len() {
                        assert(out@[p] == pre[p]);
                    } else {
                        assert(out@[p] == v@[i as int]);
                    }
                }
                assert forall|p: int| k <= p < out@.len() implies (#[trigger] out@[p])@ == v@[p
                    + 1]@ by {
                    if p < pre.len() {
                        assert(out@[p] == pre[p]);
                    } else {
                        assert(out@[p] == v@[i as int]);
                    }
                }
            }
        }
        i += 1;
    }
    proof {
        assert(out.deep_view() =~= v.deep_view().remove(k as int));
    }
    out
}

/// Rebuild a table without the named column: the shadow-table recipe in its
/// pure form (the portable fallback for engines that cannot drop a column) —
/// the column list without that column, and every row copied across with
/// exactly the retained values, in order. A table that does not carry the
/// column comes back unchanged, rows and all.
pub fn rebuild_without_column(t: &TableModel, name: &str) -> (r: TableModel)
    requires
        t.wf(),
    ensures
        r.wf(),
        r.rows@.len() == t.rows@.len(),
        !t.columns.deep_view().contains(name@) ==> r.columns.deep_view() == t.columns.deep_view()
            && r.rows.deep_view() == t.rows.deep_view(),
        columns_distinct(t.columns.deep_view()) && t.columns.deep_view().contains(name@) ==> ({
            let k = spec_col_index(t.columns.deep_view(), name@);
            &&& r.columns.deep_view() == t.columns.deep_view().remove(k)
            &&& forall|i: int|
                0 <= i < t.rows@.len() ==> #[trigger] r.rows.deep_view()[i]
                    == t.rows.deep_view()[i].remove(k)
        }),
{
    let found = find_column(&t.columns, name);
    match found {
        None => {
            let mut rows: Vec<Vec<String>> = Vec::new();
            let mut i: usize = 0;
            while i < t.rows.len()
                invariant
                    i <= t.rows.len(),
                    t.wf(),
                    rows@.len() == i,
                    forall|p: int| 0 <= p < i ==> (#[trigger] rows@[p]).deep_view()
                        == t.rows@[p].deep_view(),
                decreases t.rows.len() - i,
            {
                let ghost pre = rows@;
                let cl = clone_string_vec(&t.rows[i]);
                rows.push(cl);
                proof {
                    assert forall|p: int| 0 <= p < i + 1 implies (#[trigger] rows@[p]).deep_view()
                        == t.rows@[p].deep_view() by {
                        if p < i {
                            assert(rows@[p] == pre[p]);
                        } else {
                            assert(rows@[p] == cl);
                        }
                    }
                }
                i += 1;
            }
            proof {
                assert(rows.deep_view() =~= t.rows.deep_view());
                assert(!t.columns.deep_view().contains(name@));
            }
            let out = TableModel { columns: clone_string_vec(&t.columns), rows };
            proof {
                assert forall|q: int| 0 <= q < out.rows@.len() implies (#[trigger] out.rows@[q])@.len()
                    == out.columns@.len() by {
                    assert(out.rows.deep_view()[q] == t.rows.deep_view()[q]);
                    assert(out.rows@[q]@.len() == out.rows.deep_view()[q].len());
                    assert(t.rows@[q]@.len() == t.rows.deep_view()[q].len());
                    assert(out.columns.deep_view().len() == t.columns.deep_view().len());
                }
            }
            out
        },
        Some(k) => {
            let ghost cols_dv = t.columns.deep_view();
            let ghost kk = k as int;
            let new_cols = remove_string_at(&t.columns, k);
            let mut rows: Vec<Vec<String>> = Vec::new();
            let mut i: usize = 0;
            while i < t.rows.len()
                invariant
                    i <= t.rows.len(),
                    t.wf(),
                    (kk as int) < t.columns@.len(),
                    kk == k as int,
                    rows@.len() == i,
                    forall|q: int|
                        0 <= q < i ==> (#[trigger] rows@[q]).deep_view() == t.rows@[q].deep_view()
                            .remove(kk),
                decreases t.rows.len() - i,
            {
                let ghost pre = rows@;
                let nr = remove_string_at(&t.rows[i], k);
                rows.push(nr);
                proof {
                    assert forall|q: int| 0 <= q < i + 1 implies (#[trigger] rows@[q]).deep_view()
                        == t.rows@[q].deep_view().remove(kk) by {
                        if q < i {
                            assert(rows@[q] == pre[q]);
                        } else {
                            assert(rows@[q] == nr);
                        }
                    }
                }
                i += 1;
            }
            let out = TableModel { columns: new_cols, rows };
            proof {
                if columns_distinct(cols_dv) && cols_dv.contains(name@) {
                    let ki = spec_col_index(cols_dv, name@);
                    assert(0 <= ki < cols_dv.len() && cols_dv[ki] == name@);
                    if ki < kk {
                        assert(cols_dv[ki] != cols_dv[kk]);
                    } else if kk < ki {
                        assert(cols_dv[kk] != cols_dv[ki]);
                    }
                    assert(ki == kk);
                }
                assert forall|q: int| 0 <= q < out.rows@.len() implies (#[trigger] out.rows@[q])@.len()
                    == out.columns@.len() by {
                    assert(out.rows.deep_view()[q] == t.rows.deep_view()[q].remove(kk));
                    assert(out.rows@[q]@.len() == out.rows.deep_view()[q].len());
                    assert(t.rows@[q]@.len() == t.rows.deep_view()[q].len());
                    assert(out.columns.deep_view().len() == t.columns.deep_view().len() - 1);
                }
            }
            out
        },
    }
}

/// The removed column is gone: a distinct column list, with the named column
/// removed, no longer contains that name — so a second rebuild is a no-op.
pub proof fn lemma_removed_column_gone(cols: Seq<Seq<char>>, name: Seq<char>)
    requires
        columns_distinct(cols),
        cols.contains(name),
    ensures
        !cols.remove(spec_col_index(cols, name)).contains(name),
{
    let k = spec_col_index(cols, name);
    assert(0 <= k < cols.len() && cols[k] == name);
    let rem = cols.remove(k);
    assert forall|p: int| 0 <= p < rem.len() implies rem[p] != name by {
        if p < k {
            assert(rem[p] == cols[p]);
            assert(cols[p] != cols[k]);
        } else {
            assert(rem[p] == cols[p + 1]);
            assert(cols[k] != cols[p + 1]);
        }
    }
    assert(!rem.contains(name));
}

} // verus!
