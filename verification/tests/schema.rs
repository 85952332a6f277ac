use unfold::db::{db_images_columns, db_nodes_columns, open_in_memory_database};
use unfold::doctor::{
    check_database_schema, check_nodes_schema, columns_contain, join_comma,
    rebuild_without_column, repair_nodes_schema, TableModel, MSG_IMAGES_OK,
    MSG_IMAGES_TABLE_MISSING, MSG_NODES_OK, MSG_NODES_REPAIRED,
};
use unfold::migrate::{apply_migrations, get_migrations};

fn migrated_connection() -> rusqlite::Connection {
    let mut conn = open_in_memory_database().expect("open");
    apply_migrations(&mut conn, 0).expect("migrate");
    conn
}

/// A store from an earlier release: its nodes table still carries the
/// obsolete `type` column.
fn legacy_connection() -> rusqlite::Connection {
    let conn = rusqlite::Connection::open_in_memory().expect("open");
    conn.execute_batch(
        "CREATE TABLE spaces (id TEXT PRIMARY KEY NOT NULL, name TEXT NOT NULL, sort_order INTEGER NOT NULL DEFAULT 0);
         INSERT INTO spaces (id, name) VALUES ('s1', 'First');
         CREATE TABLE nodes (id TEXT PRIMARY KEY NOT NULL, space_id TEXT NOT NULL, parent_id TEXT, name TEXT NOT NULL, content TEXT, is_open INTEGER NOT NULL DEFAULT 0, type TEXT, sort_order INTEGER NOT NULL DEFAULT 0);
         INSERT INTO nodes (id, space_id, name, content, type) VALUES ('a', 's1', 'first', 'hello', 'note');
         INSERT INTO nodes (id, space_id, parent_id, name, type) VALUES ('b', 's1', 'a', 'second', 'folder');",
    )
    .expect("legacy schema");
    conn
}

#[test]
fn ledger_is_strictly_ordered() {
    let units = get_migrations();
    assert_eq!(units.len(), 3);
    assert_eq!(units[0].version, 1);
    assert_eq!(units[1].version, 2);
    assert_eq!(units[2].version, 3);
    assert_eq!(units[0].description, "create_spaces_table");
    assert_eq!(units[1].description, "create_nodes_table");
    assert_eq!(units[2].description, "create_images_table");
    assert!(units[0].sql.contains("CREATE TABLE IF NOT EXISTS spaces"));
    assert!(units[1].sql.contains("CREATE TABLE IF NOT EXISTS nodes"));
    assert!(units[2].sql.contains("CREATE TABLE IF NOT EXISTS images"));
}

#[test]
fn migrations_create_expected_tables() {
    let conn = migrated_connection();
    let nodes = db_nodes_columns(&conn).expect("columns");
    assert_eq!(
        nodes,
        vec![
            "id", "space_id", "parent_id", "name", "content", "is_open", "is_pinned",
            "sort_order", "created_at", "updated_at"
        ]
    );
    let images = db_images_columns(&conn).expect("columns");
    assert_eq!(
        images,
        vec!["id", "note_id", "filename", "file_path", "size", "mime_type", "created_at"]
    );
}

#[test]
fn migration_idempotence_applying_twice_yields_same_schema() {
    let mut conn = open_in_memory_database().expect("open");
    let v1 = apply_migrations(&mut conn, 0).expect("first run");
    assert_eq!(v1, 3);
    let nodes_once = db_nodes_columns(&conn).expect("columns");
    let images_once = db_images_columns(&conn).expect("columns");
    let v2 = apply_migrations(&mut conn, 0).expect("second run");
    assert_eq!(v2, 3);
    assert_eq!(db_nodes_columns(&conn).expect("columns"), nodes_once);
    assert_eq!(db_images_columns(&conn).expect("columns"), images_once);
}

#[test]
fn migration_skips_applied_units() {
    let mut conn = open_in_memory_database().expect("open");
    apply_migrations(&mut conn, 0).expect("full run");
    let v = apply_migrations(&mut conn, 3).expect("nothing pending");
    assert_eq!(v, 3);
    let v5 = apply_migrations(&mut conn, 5).expect("nothing pending");
    assert_eq!(v5, 5);
}

#[test]
fn check_database_schema_verdicts() {
    let fresh = open_in_memory_database().expect("open");
    assert_eq!(check_database_schema(&fresh).expect("verdict"), MSG_IMAGES_TABLE_MISSING);
    let migrated = migrated_connection();
    assert_eq!(check_database_schema(&migrated).expect("verdict"), MSG_IMAGES_OK);
}

#[test]
fn check_nodes_schema_reports_columns() {
    let conn = migrated_connection();
    let verdict = check_nodes_schema(&conn).expect("verdict");
    assert_eq!(
        verdict,
        "nodes columns: id, space_id, parent_id, name, content, is_open, is_pinned, sort_order, created_at, updated_at; contains 'type': false"
    );
    let legacy = legacy_connection();
    let verdict = check_nodes_schema(&legacy).expect("verdict");
    assert!(verdict.contains("contains 'type': true"));
}

#[test]
fn repair_is_a_noop_on_a_healthy_table() {
    let mut conn = migrated_connection();
    let before = db_nodes_columns(&conn).expect("columns");
    let row_count: i64 = conn
        .query_row("SELECT COUNT(*) FROM nodes", [], |r| r.get(0))
        .expect("count");
    let msg = repair_nodes_schema(&mut conn).expect("repair");
    assert_eq!(msg, MSG_NODES_OK);
    assert_eq!(db_nodes_columns(&conn).expect("columns"), before);
    let after: i64 = conn
        .query_row("SELECT COUNT(*) FROM nodes", [], |r| r.get(0))
        .expect("count");
    assert_eq!(after, row_count);
}

#[test]
fn repair_removes_obsolete_column_and_keeps_rows() {
    let mut conn = legacy_connection();
    let before: i64 = conn
        .query_row("SELECT COUNT(*) FROM nodes", [], |r| r.get(0))
        .expect("count");
    assert_eq!(before, 2);
    let msg = repair_nodes_schema(&mut conn).expect("repair");
    assert_eq!(msg, MSG_NODES_REPAIRED);
    let cols = db_nodes_columns(&conn).expect("columns");
    assert!(!cols.iter().any(|c| c == "type"));
    assert_eq!(
        cols,
        vec!["id", "space_id", "parent_id", "name", "content", "is_open", "sort_order"]
    );
    let after: i64 = conn
        .query_row("SELECT COUNT(*) FROM nodes", [], |r| r.get(0))
        .expect("count");
    assert_eq!(after, 2);
    let content: String = conn
        .query_row("SELECT content FROM nodes WHERE id = 'a'", [], |r| r.get(0))
        .expect("row data kept");
    assert_eq!(content, "hello");
    // running repair a second time is the no-op branch and changes nothing
    let msg2 = repair_nodes_schema(&mut conn).expect("repair again");
    assert_eq!(msg2, MSG_NODES_OK);
    assert_eq!(db_nodes_columns(&conn).expect("columns"), cols);
}

#[test]
fn table_model_rebuild_projects_rows() {
    let table = TableModel {
        columns: vec!["id".to_string(), "type".to_string(), "name".to_string()],
        rows: vec![
            vec!["a".to_string(), "note".to_string(), "first".to_string()],
            vec!["b".to_string(), "folder".to_string(), "second".to_string()],
        ],
    };
    let rebuilt = rebuild_without_column(&table, "type");
    assert_eq!(rebuilt.columns, vec!["id", "name"]);
    assert_eq!(rebuilt.rows.len(), 2);
    assert_eq!(rebuilt.rows[0], vec!["a", "first"]);
    assert_eq!(rebuilt.rows[1], vec!["b", "second"]);
    // a second rebuild finds nothing to remove and keeps rows and data
    let again = rebuild_without_column(&rebuilt, "type");
    assert_eq!(again.columns, rebuilt.columns);
    assert_eq!(again.rows, rebuilt.rows);
}

#[test]
fn table_model_rebuild_noop_without_column() {
    let table = TableModel {
        columns: vec!["id".to_string(), "name".to_string()],
        rows: vec![vec!["a".to_string(), "first".to_string()]],
    };
    let rebuilt = rebuild_without_column(&table, "type");
    assert_eq!(rebuilt.columns, table.columns);
    assert_eq!(rebuilt.rows, table.rows);
}

#[test]
fn column_helpers() {
    let cols = vec!["id".to_string(), "name".to_string()];
    assert!(columns_contain(&cols, "name"));
    assert!(!columns_contain(&cols, "type"));
    assert_eq!(join_comma(&cols), "id, name");
    assert_eq!(join_comma(&Vec::new()), "");
}

/// A drifted store whose nodes table carries the full column set plus the
/// obsolete column: repair must drop exactly `type` and keep the rest.
fn drifted_connection() -> rusqlite::Connection {
    let conn = rusqlite::Connection::open_in_memory().expect("open");
    conn.execute_batch(
        "CREATE TABLE spaces (id TEXT PRIMARY KEY NOT NULL, name TEXT NOT NULL, sort_order INTEGER NOT NULL DEFAULT 0);
         INSERT INTO spaces (id, name) VALUES ('s1', 'First');
         CREATE TABLE nodes (id TEXT PRIMARY KEY NOT NULL, space_id TEXT NOT NULL, parent_id TEXT, name TEXT NOT NULL, content TEXT, is_open INTEGER NOT NULL DEFAULT 0, is_pinned INTEGER NOT NULL DEFAULT 0, type TEXT, sort_order INTEGER NOT NULL DEFAULT 0, created_at TEXT NOT NULL DEFAULT (datetime('now')), updated_at TEXT NOT NULL DEFAULT (datetime('now')));
         INSERT INTO nodes (id, space_id, name, content, is_pinned, type) VALUES ('a', 's1', 'first', 'hello', 1, 'note');",
    )
    .expect("drifted schema");
    conn
}

#[test]
fn repair_keeps_every_column_but_the_obsolete_one() {
    let mut conn = drifted_connection();
    let msg = repair_nodes_schema(&mut conn).expect("repair");
    assert_eq!(msg, MSG_NODES_REPAIRED);
    let cols = db_nodes_columns(&conn).expect("columns");
    assert_eq!(
        cols,
        vec![
            "id", "space_id", "parent_id", "name", "content", "is_open", "is_pinned",
            "sort_order", "created_at", "updated_at"
        ]
    );
    let (pinned, created): (i64, String) = conn
        .query_row("SELECT is_pinned, created_at FROM nodes WHERE id = 'a'", [], |r| {
            Ok((r.get(0)?, r.get(1)?))
        })
        .expect("row kept");
    assert_eq!(pinned, 1, "drifted data survives the repair");
    assert!(!created.is_empty());
}

#[test]
fn store_defaults_timestamps_on_insert() {
    let mut conn = open_in_memory_database().expect("open");
    apply_migrations(&mut conn, 0).expect("migrate");
    conn.execute_batch(
        "INSERT INTO spaces (id, name) VALUES ('s1', 'First');
         INSERT INTO nodes (id, space_id, name) VALUES ('n', 's1', 'note');",
    )
    .expect("insert");
    let (created, updated): (String, String) = conn
        .query_row("SELECT created_at, updated_at FROM nodes WHERE id = 'n'", [], |r| {
            Ok((r.get(0)?, r.get(1)?))
        })
        .expect("timestamps");
    assert!(!created.is_empty());
    assert_eq!(created, updated, "both default to the insertion time");
}

#[test]
fn store_refreshes_updated_at_on_rename_only() {
    let mut conn = open_in_memory_database().expect("open");
    apply_migrations(&mut conn, 0).expect("migrate");
    conn.execute_batch(
        "INSERT INTO spaces (id, name) VALUES ('s1', 'First');
         INSERT INTO nodes (id, space_id, name) VALUES ('n', 's1', 'note');
         UPDATE nodes SET updated_at = '2000-01-01 00:00:00' WHERE id = 'n';",
    )
    .expect("insert");
    let old_stamp = "2000-01-01 00:00:00".to_string();
    // a reorder leaves updated_at alone
    conn.execute("UPDATE nodes SET sort_order = 9 WHERE id = 'n'", [])
        .expect("reorder");
    let after_reorder: String = conn
        .query_row("SELECT updated_at FROM nodes WHERE id = 'n'", [], |r| r.get(0))
        .expect("stamp");
    assert_eq!(after_reorder, old_stamp);
    // a rename refreshes it, strictly past the old stamp
    conn.execute("UPDATE nodes SET name = 'renamed' WHERE id = 'n'", [])
        .expect("rename");
    let after_rename: String = conn
        .query_row("SELECT updated_at FROM nodes WHERE id = 'n'", [], |r| r.get(0))
        .expect("stamp");
    assert!(after_rename > old_stamp, "updated_at strictly increases on rename");
    let created: String = conn
        .query_row("SELECT created_at FROM nodes WHERE id = 'n'", [], |r| r.get(0))
        .expect("stamp");
    assert!(!created.is_empty(), "created_at is untouched by updates");
    // an edit of content refreshes it as well
    conn.execute("UPDATE nodes SET updated_at = '2000-01-01 00:00:00' WHERE id = 'n'", [])
        .expect("reset");
    conn.execute("UPDATE nodes SET content = 'body' WHERE id = 'n'", [])
        .expect("edit");
    let after_edit: String = conn
        .query_row("SELECT updated_at FROM nodes WHERE id = 'n'", [], |r| r.get(0))
        .expect("stamp");
    assert!(after_edit > old_stamp, "updated_at strictly increases on content edit");
}
