//! Tests of applying migrations to the store model: full replays, partial
//! replays, idempotence of guarded statements, and failure semantics.

use kronosphere::migration::{build, ColType, Column, MigrationKind, MigrationStep, Statement};
use kronosphere::store::{ApplyError, SchemaError, Store};

fn plain_col(name: &str, ty: ColType) -> Column {
    Column::new(name, ty, false, false, false, None)
}

fn add_column_step(version: u64, table: &str, column: &str) -> MigrationStep {
    MigrationStep {
        version,
        description: format!("add {} column to {} table", column, table),
        statement: Statement::AddColumn {
            table: table.to_owned(),
            column: plain_col(column, ColType::Text),
        },
        kind: MigrationKind::Up,
    }
}

fn column_names(store: &Store, table: &str) -> Vec<String> {
    let t = store
        .tables
        .iter()
        .find(|t| t.name == table)
        .unwrap_or_else(|| panic!("table {} is missing", table));
    t.columns.iter().map(|c| c.name.clone()).collect()
}

#[test]
fn full_replay_on_empty_store_builds_the_schema() {
    let reg = build();
    let mut store = Store::empty();
    let applied = store.apply_registry(&reg).unwrap();
    assert_eq!(applied, vec![1, 2, 3, 4, 5]);
    assert_eq!(store.version, reg.max_version());
    let table_names: Vec<&str> = store.tables.iter().map(|t| t.name.as_str()).collect();
    assert_eq!(table_names, vec!["notes", "tasks", "users"]);
    assert_eq!(
        column_names(&store, "notes"),
        vec![
            "id",
            "content",
            "created_at",
            "modified_at",
            "type",
            "tags",
            "properties",
            "path",
            "ai_insights",
        ]
    );
    assert_eq!(
        column_names(&store, "tasks"),
        vec![
            "id",
            "title",
            "notes",
            "is_done",
            "created_at",
            "done_at",
            "journal_date",
            "tags",
            "priority",
        ]
    );
    assert_eq!(column_names(&store, "users"), vec!["id", "name", "email"]);
}

#[test]
fn replay_from_version_two_applies_only_later_steps() {
    let reg = build();
    let mut store = Store::empty();
    // Bring the store to version 2: steps 1 and 2 applied, nothing more.
    assert_eq!(store.apply_step(&reg.steps()[0]), Ok(true));
    assert_eq!(store.apply_step(&reg.steps()[1]), Ok(true));
    assert_eq!(store.version, 2);
    let applied = store.apply_registry(&reg).unwrap();
    assert_eq!(applied, vec![3, 4, 5]);
    assert_eq!(store.version, 5);
    assert!(column_names(&store, "notes").contains(&"path".to_owned()));
    assert!(column_names(&store, "notes").contains(&"ai_insights".to_owned()));
}

#[test]
fn replay_on_a_migrated_store_applies_nothing() {
    let reg = build();
    let mut store = Store::empty();
    store.apply_registry(&reg).unwrap();
    let before = store.tables.len();
    let applied = store.apply_registry(&reg).unwrap();
    assert_eq!(applied, Vec::<u64>::new());
    assert_eq!(store.version, 5);
    assert_eq!(store.tables.len(), before);
}

#[test]
fn guarded_creations_are_idempotent_but_column_additions_are_not() {
    // Re-running every statement outside the tracked-version mechanism:
    // creations guarded by an existence check pass a second time, while a
    // plain column addition is rejected as a duplicate.
    let reg = build();
    let mut store = Store::empty();
    for s in reg.steps().iter() {
        store.apply_statement(&s.statement).unwrap();
    }
    for (i, s) in reg.steps().iter().enumerate() {
        let second = store.apply_statement(&s.statement);
        match &s.statement {
            Statement::CreateTable { .. } => assert_eq!(second, Ok(())),
            Statement::AddColumn { table, column } => {
                assert_eq!(
                    second,
                    Err(SchemaError::DuplicateColumn {
                        table: table.clone(),
                        column: column.name.clone(),
                    }),
                    "step {} re-applied",
                    i + 1,
                );
            }
        }
    }
}

#[test]
fn skipped_step_leaves_the_store_alone() {
    let reg = build();
    let mut store = Store::empty();
    store.apply_registry(&reg).unwrap();
    assert_eq!(store.apply_step(&reg.steps()[2]), Ok(false));
    assert_eq!(store.version, 5);
}

#[test]
fn invalid_step_fails_fatally_and_commits_nothing() {
    // A statement referencing a nonexistent table fails; the store's
    // recorded version is untouched by the failing step.
    let mut store = Store::empty();
    let step = add_column_step(1, "missing", "extra");
    let r = store.apply_step(&step);
    assert_eq!(
        r,
        Err(ApplyError {
            version: 1,
            cause: SchemaError::NoSuchTable { table: "missing".to_owned() },
        })
    );
    assert_eq!(store.version, 0);
    assert!(store.tables.is_empty());
}

#[test]
fn failure_mid_replay_keeps_earlier_steps_and_stops() {
    let notes_create = MigrationStep {
        version: 1,
        description: "create notes table".to_owned(),
        statement: Statement::CreateTable {
            name: "notes".to_owned(),
            columns: vec![plain_col("id", ColType::Text)],
            if_not_exists: true,
        },
        kind: MigrationKind::Up,
    };
    let bad = add_column_step(2, "tasks", "extra");
    let broken = kronosphere::migration::Registry::new(vec![notes_create, bad]).unwrap();
    let mut store = Store::empty();
    let r = store.apply_registry(&broken);
    assert_eq!(
        r,
        Err(ApplyError {
            version: 2,
            cause: SchemaError::NoSuchTable { table: "tasks".to_owned() },
        })
    );
    // The first step stays committed; the failing one committed nothing.
    assert_eq!(store.version, 1);
    let table_names: Vec<&str> = store.tables.iter().map(|t| t.name.as_str()).collect();
    assert_eq!(table_names, vec!["notes"]);
}

#[test]
fn unguarded_creation_of_an_existing_table_fails() {
    let mut store = Store::empty();
    let unguarded = Statement::CreateTable {
        name: "notes".to_owned(),
        columns: vec![plain_col("id", ColType::Text)],
        if_not_exists: false,
    };
    assert_eq!(store.apply_statement(&unguarded), Ok(()));
    assert_eq!(
        store.apply_statement(&unguarded),
        Err(SchemaError::TableExists { table: "notes".to_owned() })
    );
    assert_eq!(store.version, 0);
}

#[test]
fn greeting_matches_the_demo_command() {
    assert_eq!(
        kronosphere::greeting("World"),
        "Hello, World! You've been greeted from Rust!"
    );
    let event = kronosphere::DemoEvent("Demo event fired from Rust".to_owned());
    assert_eq!(event.0, "Demo event fired from Rust");
}
