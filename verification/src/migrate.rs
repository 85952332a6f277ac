//! The migration ledger: a strictly ordered sequence of idempotent,
//! forward-only schema-change units, applied in ascending version order on
//! store open, skipping every unit at or below the version already applied.
//! Each unit runs inside its own transaction: a failure aborts that unit and
//! leaves the store at the last unit that committed.

use vstd::prelude::*;
use crate::db::{
    db_create_images_table, db_create_nodes_table, db_create_spaces_table, images_columns_of,
    images_of, nodes_columns_of, spaces_columns_of, spec_images_columns, spec_nodes_columns,
    spec_spaces_columns, ImageRowData,
};

verus! {

pub const SPACES_MIGRATION_SQL: &'static str =
    "CREATE TABLE IF NOT EXISTS spaces (id TEXT PRIMARY KEY NOT NULL, name TEXT NOT NULL, sort_order INTEGER NOT NULL DEFAULT 0);";

pub const NODES_MIGRATION_SQL: &'static str =
    "CREATE TABLE IF NOT EXISTS nodes (id TEXT PRIMARY KEY NOT NULL, space_id TEXT NOT NULL, parent_id TEXT, name TEXT NOT NULL, content TEXT, is_open INTEGER NOT NULL DEFAULT 0, is_pinned INTEGER NOT NULL DEFAULT 0, sort_order INTEGER NOT NULL DEFAULT 0, created_at TEXT NOT NULL DEFAULT (datetime('now')), updated_at TEXT NOT NULL DEFAULT (datetime('now')), FOREIGN KEY (space_id) REFERENCES spaces(id) ON DELETE CASCADE, FOREIGN KEY (parent_id) REFERENCES nodes(id) ON DELETE CASCADE);
         CREATE INDEX IF NOT EXISTS idx_nodes_space_id ON nodes(space_id);
         CREATE INDEX IF NOT EXISTS idx_nodes_parent_id ON nodes(parent_id);
         CREATE TRIGGER IF NOT EXISTS trg_nodes_updated_at AFTER UPDATE OF name, content ON nodes FOR EACH ROW BEGIN UPDATE nodes SET updated_at = datetime('now') WHERE id = NEW.id; END;";

pub const IMAGES_MIGRATION_SQL: &'static str =
    "CREATE TABLE IF NOT EXISTS images (id TEXT PRIMARY KEY NOT NULL, note_id TEXT NOT NULL, filename TEXT NOT NULL, file_path TEXT NOT NULL, size TEXT NOT NULL, mime_type TEXT NOT NULL, created_at TEXT NOT NULL);
         CREATE INDEX IF NOT EXISTS idx_images_note_id ON images(note_id);
         CREATE INDEX IF NOT EXISTS idx_images_created_at ON images(created_at);";

/// One versioned, idempotent, forward-only schema-change unit.
pub struct MigrationUnit {
    pub version: u64,
    pub description: &'static str,
    pub sql: &'static str,
}

/// The full migration ledger, in strictly ascending version order.
pub fn get_migrations() -> (r: Vec<MigrationUnit>)
    ensures
        r@.len() == 3,
        forall|i: int| 0 <= i < 3 ==> #[trigger] r@[i].version == i + 1,
        forall|i: int, j: int| 0 <= i < j < 3 ==> r@[i].version < r@[j].version,
        r@[0].description@ == "create_spaces_table"@,
        r@[1].description@ == "create_nodes_table"@,
        r@[2].description@ == "create_images_table"@,
        r@[0].sql@ == SPACES_MIGRATION_SQL@,
        r@[1].sql@ == NODES_MIGRATION_SQL@,
        r@[2].sql@ == IMAGES_MIGRATION_SQL@,
{
    let mut units: Vec<MigrationUnit> = Vec::new();
    units.push(
        MigrationUnit {
            version: 1,
            description: "create_spaces_table",
            sql: SPACES_MIGRATION_SQL,
        },
    );
    units.push(
        MigrationUnit { version: 2, description: "create_nodes_table", sql: NODES_MIGRATION_SQL },
    );
    units.push(
        MigrationUnit {
            version: 3,
            description: "create_images_table",
            sql: IMAGES_MIGRATION_SQL,
        },
    );
    units
}

/// The schema-relevant state of the store: the column lists of the three
/// tables (empty when a table is absent) and the attachment rows.
#[verifier::ext_equal]
pub ghost struct SchemaState {
    pub spaces: Seq<Seq<char>>,
    pub nodes: Seq<Seq<char>>,
    pub images: Seq<Seq<char>>,
    pub image_rows: Map<Seq<char>, ImageRowData>,
}

/// The schema-relevant state of a live connection.
pub open spec fn schema_of(c: rusqlite::Connection) -> SchemaState {
    SchemaState {
        spaces: spaces_columns_of(c),
        nodes: nodes_columns_of(c),
        images: images_columns_of(c),
        image_rows: images_of(c),
    }
}

/// What one migration unit does: it creates its table when the table is
/// absent, and changes nothing at all when the table is already there.
pub open spec fn spec_apply_unit(s: SchemaState, version: int) -> SchemaState {
    if version == 1 {
        if s.spaces.len() == 0 {
            SchemaState { spaces: spec_spaces_columns(), ..s }
        } else {
            s
        }
    } else if version == 2 {
        if s.nodes.len() == 0 {
            SchemaState { nodes: spec_nodes_columns(), ..s }
        } else {
            s
        }
    } else if version == 3 {
        if s.images.len() == 0 {
            SchemaState { images: spec_images_columns(), ..s }
        } else {
            s
        }
    } else {
        s
    }
}

/// The ledger applied from `from` up to and including version `upto`: every
/// unit in that window, in ascending order.
pub open spec fn spec_apply_prefix(s: SchemaState, from: int, upto: int) -> SchemaState {
    let s1 = if from < 1 && 1 <= upto {
        spec_apply_unit(s, 1)
    } else {
        s
    };
    let s2 = if from < 2 && 2 <= upto {
        spec_apply_unit(s1, 2)
    } else {
        s1
    };
    if from < 3 && 3 <= upto {
        spec_apply_unit(s2, 3)
    } else {
        s2
    }
}

/// What running the whole ledger from a given already-applied version does.
pub open spec fn spec_apply_pending(s: SchemaState, from: int) -> SchemaState {
    spec_apply_prefix(s, from, 3)
}

/// The store version after a successful run of the ledger.
pub open spec fn spec_version_after(from: int) -> int {
    if from >= 3 {
        from
    } else {
        3
    }
}

/// Run every migration unit with a version above `from_version`, in
/// ascending order, each inside its own transaction. On success the store's
/// schema is exactly the ledger's effect on the previous schema and the new
/// version is returned. On failure the failing unit was rolled back whole:
/// the store is left exactly at the last unit that committed, and startup
/// must not proceed.
pub fn apply_migrations(conn: &mut rusqlite::Connection, from_version: u64) -> (r: Result<
    u64,
    String,
>)
    ensures
        r is Ok ==> schema_of(*final(conn)) == spec_apply_pending(
            schema_of(*old(conn)),
            from_version as int,
        ),
        r is Ok ==> r->Ok_0 == spec_version_after(from_version as int),
        r is Err ==> exists|k: int| #![auto]
            0 <= k < 3 && schema_of(*final(conn)) == spec_apply_prefix(
                schema_of(*old(conn)),
                from_version as int,
                k,
            ),
{
    let ghost s0 = schema_of(*conn);
    if from_version < 1 {
        if let Err(e) = db_create_spaces_table(conn) {
            proof {
                assert(schema_of(*conn) == spec_apply_prefix(s0, from_version as int, 0));
            }
            return Err(e);
        }
    }
    if from_version < 2 {
        if let Err(e) = db_create_nodes_table(conn) {
            proof {
                assert(schema_of(*conn) == spec_apply_prefix(s0, from_version as int, 1));
            }
            return Err(e);
        }
    }
    if from_version < 3 {
        if let Err(e) = db_create_images_table(conn) {
            proof {
                assert(schema_of(*conn) == spec_apply_prefix(s0, from_version as int, 2));
            }
            return Err(e);
        }
    }
    if from_version >= 3 {
        Ok(from_version)
    } else {
        Ok(3)
    }
}

/// Migration idempotence: running the full ledger twice yields exactly the
/// schema that running it once yields, because every unit leaves a present
/// table untouched.
pub proof fn lemma_migration_idempotent(s: SchemaState)
    ensures
        spec_apply_pending(spec_apply_pending(s, 0), 0) == spec_apply_pending(s, 0),
{
}

/// A store already at (or above) the ledger's top version has no pending
/// units: running the ledger from there changes nothing.
pub proof fn lemma_no_pending_at_top(s: SchemaState, from: int)
    requires
        from >= 3,
    ensures
        spec_apply_pending(s, from) == s,
{
}

/// Only pending units run: a unit at or below the already-applied version
/// never touches its table, and no migration unit ever touches the
/// attachment rows.
pub proof fn lemma_applied_units_not_rerun(s: SchemaState, from: int)
    ensures
        from >= 1 ==> spec_apply_pending(s, from).spaces == s.spaces,
        from >= 2 ==> spec_apply_pending(s, from).nodes == s.nodes,
        from >= 3 ==> spec_apply_pending(s, from).images == s.images,
        spec_apply_pending(s, from).image_rows == s.image_rows,
{
}

} // verus!
