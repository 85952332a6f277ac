//! Trusted boundary to the embedded relational engine.
//!
//! The connection is opaque; the parts of its state that the library's
//! contracts speak of are named here: the column lists of the three tables,
//! the stored `images` rows, and the `nodes` row count. Each wrapper runs one
//! SQL statement (or one migration unit inside its own transaction) and
//! states its effect on those names.

use vstd::prelude::*;

verus! {

#[verifier::external_type_specification]
#[verifier::external_body]
pub struct ExConnection(rusqlite::Connection);

/// The stored fields of one `images` row, in column order:
/// `(note_id, filename, file_path, size, mime_type)` — `size` as its decimal
/// text, as the table stores it. The row's `created_at` comes from the
/// engine's clock and is not part of this projection.
pub type ImageRowData = (Seq<char>, Seq<char>, Seq<char>, Seq<char>, Seq<char>);

/// The column names of the `spaces` table, in order; empty when the table is absent.
pub uninterp spec fn spaces_columns_of(c: rusqlite::Connection) -> Seq<Seq<char>>;

/// The column names of the `nodes` table, in order; empty when the table is absent.
pub uninterp spec fn nodes_columns_of(c: rusqlite::Connection) -> Seq<Seq<char>>;

/// The column names of the `images` table, in order; empty when the table is absent.
pub uninterp spec fn images_columns_of(c: rusqlite::Connection) -> Seq<Seq<char>>;

/// The rows of the `images` table, as a map from attachment id (the primary
/// key) to the stored fields; empty when the table is absent.
pub uninterp spec fn images_of(c: rusqlite::Connection) -> Map<Seq<char>, ImageRowData>;

/// The number of rows of the `nodes` table; zero when the table is absent.
pub uninterp spec fn nodes_row_count_of(c: rusqlite::Connection) -> nat;

/// The decimal rendering of a digit.
pub open spec fn spec_digit_char(d: nat) -> char {
    if d == 0 {
        '0'
    } else if d == 1 {
        '1'
    } else if d == 2 {
        '2'
    } else if d == 3 {
        '3'
    } else if d == 4 {
        '4'
    } else if d == 5 {
        '5'
    } else if d == 6 {
        '6'
    } else if d == 7 {
        '7'
    } else if d == 8 {
        '8'
    } else {
        '9'
    }
}

/// The decimal rendering of a natural number, most significant digit first.
pub open spec fn spec_decimal_digits(n: nat) -> Seq<char>
    decreases n,
{
    if n < 10 {
        seq![spec_digit_char(n)]
    } else {
        spec_decimal_digits(n / 10).push(spec_digit_char(n % 10))
    }
}

/// The columns the `spaces` table is created with.
pub open spec fn spec_spaces_columns() -> Seq<Seq<char>> {
    seq!["id"@, "name"@, "sort_order"@]
}

/// The columns the `nodes` table is created with.
pub open spec fn spec_nodes_columns() -> Seq<Seq<char>> {
    seq![
        "id"@,
        "space_id"@,
        "parent_id"@,
        "name"@,
        "content"@,
        "is_open"@,
        "is_pinned"@,
        "sort_order"@,
        "created_at"@,
        "updated_at"@,
    ]
}

/// The columns the `images` table is created with.
pub open spec fn spec_images_columns() -> Seq<Seq<char>> {
    seq!["id"@, "note_id"@, "filename"@, "file_path"@, "size"@, "mime_type"@, "created_at"@]
}

/// Pairwise distinct column names (the engine never allows duplicates).
pub open spec fn columns_distinct(cols: Seq<Seq<char>>) -> bool {
    forall|i: int, j: int| 0 <= i < j < cols.len() ==> cols[i] != cols[j]
}

/// The position of a column name.
pub open spec fn spec_col_index(cols: Seq<Seq<char>>, name: Seq<char>) -> int {
    choose|i: int| 0 <= i < cols.len() && cols[i] == name
}

/// The schema is untouched: all three column lists are the same in both states.
pub open spec fn schema_unchanged(pre: rusqlite::Connection, post: rusqlite::Connection) -> bool {
    &&& spaces_columns_of(post) == spaces_columns_of(pre)
    &&& nodes_columns_of(post) == nodes_columns_of(pre)
    &&& images_columns_of(post) == images_columns_of(pre)
}

/// Relies on `rusqlite::Connection::open_in_memory`: a fresh in-memory
/// database holds no tables and therefore no rows.
#[verifier::external_body]
pub fn open_in_memory_database() -> (r: Result<rusqlite::Connection, String>)
    ensures
        r is Ok ==> spaces_columns_of(r->Ok_0).len() == 0,
        r is Ok ==> nodes_columns_of(r->Ok_0).len() == 0,
        r is Ok ==> images_columns_of(r->Ok_0).len() == 0,
        r is Ok ==> forall|id: Seq<char>| !images_of(r->Ok_0).dom().contains(id),
        r is Ok ==> nodes_row_count_of(r->Ok_0) == 0,
{
    rusqlite::Connection::open_in_memory().map_err(|e| format!("Failed to open database: {}", e))
}

/// Relies on `rusqlite::Connection::transaction` (rolled back when dropped
/// uncommitted) and `execute_batch` running the spaces migration unit,
/// `CREATE TABLE IF NOT EXISTS spaces (...)`: an absent table is created with
/// exactly these columns and a present one is untouched; on failure the
/// unit's transaction is rolled back and nothing changes. Every other table
/// is untouched either way.
#[verifier::external_body]
pub fn db_create_spaces_table(conn: &mut rusqlite::Connection) -> (r: Result<(), String>)
    ensures
        r is Ok ==> spaces_columns_of(*final(conn)) == (if spaces_columns_of(*old(conn)).len() == 0 {
            spec_spaces_columns()
        } else {
            spaces_columns_of(*old(conn))
        }),
        r is Err ==> spaces_columns_of(*final(conn)) == spaces_columns_of(*old(conn)),
        nodes_columns_of(*final(conn)) == nodes_columns_of(*old(conn)),
        images_columns_of(*final(conn)) == images_columns_of(*old(conn)),
        images_of(*final(conn)) == images_of(*old(conn)),
        nodes_row_count_of(*final(conn)) == nodes_row_count_of(*old(conn)),
{
    let tx = match conn.transaction() {
        Ok(tx) => tx,
        Err(e) => return Err(format!("Migration failed: {}", e)),
    };
    if let Err(e) = tx.execute_batch(crate::migrate::SPACES_MIGRATION_SQL) {
        return Err(format!("Migration failed: {}", e));
    }
    tx.commit().map_err(|e| format!("Migration failed: {}", e))
}

/// Relies on `rusqlite::Connection::transaction` (rolled back when dropped
/// uncommitted) and `execute_batch` running the nodes migration unit:
/// `CREATE TABLE IF NOT EXISTS nodes (...)` with its two indexes and the
/// `updated_at` refresh trigger. An absent table is created with exactly
/// these columns (timestamps defaulted by the engine) and a present one is
/// untouched, so no rows change; on failure the unit's transaction is rolled
/// back and nothing changes. Every other table is untouched either way.
#[verifier::external_body]
pub fn db_create_nodes_table(conn: &mut rusqlite::Connection) -> (r: Result<(), String>)
    ensures
        r is Ok ==> nodes_columns_of(*final(conn)) == (if nodes_columns_of(*old(conn)).len() == 0 {
            spec_nodes_columns()
        } else {
            nodes_columns_of(*old(conn))
        }),
        r is Err ==> nodes_columns_of(*final(conn)) == nodes_columns_of(*old(conn)),
        spaces_columns_of(*final(conn)) == spaces_columns_of(*old(conn)),
        images_columns_of(*final(conn)) == images_columns_of(*old(conn)),
        images_of(*final(conn)) == images_of(*old(conn)),
        nodes_row_count_of(*final(conn)) == nodes_row_count_of(*old(conn)),
{
    let tx = match conn.transaction() {
        Ok(tx) => tx,
        Err(e) => return Err(format!("Migration failed: {}", e)),
    };
    if let Err(e) = tx.execute_batch(crate::migrate::NODES_MIGRATION_SQL) {
        return Err(format!("Migration failed: {}", e));
    }
    tx.commit().map_err(|e| format!("Migration failed: {}", e))
}

/// Relies on `rusqlite::Connection::transaction` (rolled back when dropped
/// uncommitted) and `execute_batch` running the images migration unit,
/// `CREATE TABLE IF NOT EXISTS images (...)` with its two indexes: an absent
/// table is created with exactly these columns and a present one, rows
/// included, is untouched; on failure the unit's transaction is rolled back
/// and nothing changes. Every other table is untouched either way.
#[verifier::external_body]
pub fn db_create_images_table(conn: &mut rusqlite::Connection) -> (r: Result<(), String>)
    ensures
        r is Ok ==> images_columns_of(*final(conn)) == (if images_columns_of(*old(conn)).len() == 0 {
            spec_images_columns()
        } else {
            images_columns_of(*old(conn))
        }),
        r is Err ==> images_columns_of(*final(conn)) == images_columns_of(*old(conn)),
        images_of(*final(conn)) == images_of(*old(conn)),
        spaces_columns_of(*final(conn)) == spaces_columns_of(*old(conn)),
        nodes_columns_of(*final(conn)) == nodes_columns_of(*old(conn)),
        nodes_row_count_of(*final(conn)) == nodes_row_count_of(*old(conn)),
{
    let tx = match conn.transaction() {
        Ok(tx) => tx,
        Err(e) => return Err(format!("Migration failed: {}", e)),
    };
    if let Err(e) = tx.execute_batch(crate::migrate::IMAGES_MIGRATION_SQL) {
        return Err(format!("Migration failed: {}", e));
    }
    tx.commit().map_err(|e| format!("Migration failed: {}", e))
}

/// Relies on `rusqlite::Connection::prepare` and `Statement::query_map` over
/// `PRAGMA table_info(nodes)`: yields the table's column names in order, an
/// empty list when the table is absent.
#[verifier::external_body]
pub fn db_nodes_columns(conn: &rusqlite::Connection) -> (r: Result<Vec<String>, String>)
    ensures
        r is Ok ==> (r->Ok_0).deep_view() == nodes_columns_of(*conn),
{
    let res: rusqlite::Result<Vec<String>> = conn.prepare("PRAGMA table_info(nodes)").and_then(
        |mut stmt| {
            let rows = stmt.query_map([], |row| row.get::<_, String>(1))?;
            rows.collect()
        },
    );
    res.map_err(|e| format!("Failed to query schema: {}", e))
}

/// Relies on `rusqlite::Connection::prepare` and `Statement::query_map` over
/// `PRAGMA table_info(images)`: yields the table's column names in order, an
/// empty list when the table is absent.
#[verifier::external_body]
pub fn db_images_columns(conn: &rusqlite::Connection) -> (r: Result<Vec<String>, String>)
    ensures
        r is Ok ==> (r->Ok_0).deep_view() == images_columns_of(*conn),
{
    let res: rusqlite::Result<Vec<String>> = conn.prepare("PRAGMA table_info(images)").and_then(
        |mut stmt| {
            let rows = stmt.query_map([], |row| row.get::<_, String>(1))?;
            rows.collect()
        },
    );
    res.map_err(|e| format!("Failed to query schema: {}", e))
}

/// Relies on `rusqlite::Connection::execute` running an `INSERT` on `images`
/// (the row's `created_at` comes from SQLite's `datetime('now')`, and `size`
/// is stored as its decimal text via `u64::to_string`): success implies the
/// id was not taken — a duplicate primary key fails — and exactly one row
/// with the given fields is added; on failure the statement is rolled back
/// and no row changes. The schema and the `nodes` rows are untouched either
/// way.
#[verifier::external_body]
pub fn db_insert_image(
    conn: &mut rusqlite::Connection,
    id: &str,
    note_id: &str,
    filename: &str,
    file_path: &str,
    size: u64,
    mime_type: &str,
) -> (r: Result<(), String>)
    ensures
        r is Ok ==> !images_of(*old(conn)).contains_key(id@),
        r is Ok ==> images_of(*final(conn)) == images_of(*old(conn)).insert(
            id@,
            (note_id@, filename@, file_path@, spec_decimal_digits(size as nat), mime_type@),
        ),
        r is Err ==> images_of(*final(conn)) == images_of(*old(conn)),
        schema_unchanged(*old(conn), *final(conn)),
        nodes_row_count_of(*final(conn)) == nodes_row_count_of(*old(conn)),
{
    conn.execute(
        "INSERT INTO images (id, note_id, filename, file_path, size, mime_type, created_at) VALUES (?1, ?2, ?3, ?4, ?5, ?6, datetime('now'))",
        (id, note_id, filename, file_path, size.to_string(), mime_type),
    )
        .map(|_| ())
        .map_err(|e| format!("Failed to insert image metadata: {}", e))
}

/// Relies on `rusqlite::Connection::query_row` over
/// `SELECT file_path FROM images WHERE id = ?1`: returns the stored path for
/// the id, or reports that no row matches.
#[verifier::external_body]
pub fn db_lookup_image_path(conn: &rusqlite::Connection, attachment_id: &str) -> (r: Result<
    Option<String>,
    String,
>)
    ensures
        r is Ok && (r->Ok_0) is Some ==> images_of(*conn).contains_key(attachment_id@)
            && ((r->Ok_0)->Some_0)@ == images_of(*conn)[attachment_id@].2,
        r is Ok && (r->Ok_0) is None ==> !images_of(*conn).contains_key(attachment_id@),
        r is Err ==> "Failed to get image: "@.is_prefix_of((r->Err_0)@),
{
    match conn.query_row(
        "SELECT file_path FROM images WHERE id = ?1",
        [attachment_id],
        |row| row.get::<_, String>(0),
    ) {
        Ok(path) => Ok(Some(path)),
        Err(rusqlite::Error::QueryReturnedNoRows) => Ok(None),
        Err(e) => Err(format!("Failed to get image: {}", e)),
    }
}

/// Relies on `rusqlite::Connection::execute` running
/// `DELETE FROM images WHERE id = ?1`: on success the id no longer maps to a
/// row (deleting an absent id succeeds and changes nothing); on failure no
/// row changes. The schema and the `nodes` rows are untouched either way.
#[verifier::external_body]
pub fn db_delete_image_row(conn: &mut rusqlite::Connection, attachment_id: &str) -> (r: Result<
    (),
    String,
>)
    ensures
        r is Ok ==> images_of(*final(conn)) == images_of(*old(conn)).remove(attachment_id@),
        r is Err ==> images_of(*final(conn)) == images_of(*old(conn)),
        schema_unchanged(*old(conn), *final(conn)),
        nodes_row_count_of(*final(conn)) == nodes_row_count_of(*old(conn)),
{
    conn.execute("DELETE FROM images WHERE id = ?1", [attachment_id])
        .map(|_| ())
        .map_err(|e| format!("Failed to delete from database: {}", e))
}

/// Relies on `rusqlite::Connection::execute_batch` running the single
/// statement `ALTER TABLE nodes DROP COLUMN type` (the engine supports
/// dropping a column directly, so the portable shadow-table copy is not
/// needed): success implies the column was present, and exactly that column
/// leaves the table — every other column, every row, and the table's foreign
/// keys and indexes stay as they were (the column is not part of any of
/// them). One statement is atomic: on failure nothing changes. Every other
/// table is untouched either way.
#[verifier::external_body]
pub fn db_drop_nodes_type_column(conn: &mut rusqlite::Connection) -> (r: Result<(), String>)
    ensures
        r is Ok ==> nodes_columns_of(*old(conn)).contains("type"@),
        r is Ok ==> nodes_columns_of(*final(conn)) == nodes_columns_of(*old(conn)).remove(
            spec_col_index(nodes_columns_of(*old(conn)), "type"@),
        ),
        r is Err ==> nodes_columns_of(*final(conn)) == nodes_columns_of(*old(conn)),
        nodes_row_count_of(*final(conn)) == nodes_row_count_of(*old(conn)),
        spaces_columns_of(*final(conn)) == spaces_columns_of(*old(conn)),
        images_columns_of(*final(conn)) == images_columns_of(*old(conn)),
        images_of(*final(conn)) == images_of(*old(conn)),
{
    conn.execute_batch("ALTER TABLE nodes DROP COLUMN type;")
        .map_err(|e| format!("Failed to repair schema: {}", e))
}

} // verus!
