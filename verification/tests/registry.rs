//! Tests of the registry definition: the shipped step list and the
//! validation that seals a step sequence into a registry.

use kronosphere::migration::{
    build, ColType, Column, MigrationKind, MigrationStep, Registry, RegistryError, Statement,
};

fn plain_col(name: &str, ty: ColType) -> Column {
    Column::new(name, ty, false, false, false, None)
}

fn step(version: u64, description: &str) -> MigrationStep {
    MigrationStep {
        version,
        description: description.to_owned(),
        statement: Statement::CreateTable {
            name: format!("t{}", version),
            columns: vec![plain_col("id", ColType::Text)],
            if_not_exists: true,
        },
        kind: MigrationKind::Up,
    }
}

#[test]
fn shipped_registry_has_five_steps_in_order() {
    let reg = build();
    assert_eq!(reg.len(), 5);
    let versions: Vec<u64> = reg.steps().iter().map(|s| s.version).collect();
    assert_eq!(versions, vec![1, 2, 3, 4, 5]);
    assert_eq!(reg.max_version(), 5);
}

#[test]
fn shipped_registry_versions_strictly_increase() {
    let reg = build();
    let steps = reg.steps();
    for i in 0..steps.len() {
        assert!(steps[i].version >= 1);
        assert!(!steps[i].description.is_empty());
        for j in (i + 1)..steps.len() {
            assert!(steps[i].version < steps[j].version);
        }
    }
}

#[test]
fn shipped_registry_descriptions_match() {
    let reg = build();
    let descriptions: Vec<&str> =
        reg.steps().iter().map(|s| s.description.as_str()).collect();
    assert_eq!(
        descriptions,
        vec![
            "create notes table",
            "create tasks table",
            "add path column to notes table",
            "create users table",
            "add ai_insights column to notes table",
        ]
    );
}

#[test]
fn shipped_registry_statements_match() {
    let reg = build();
    let steps = reg.steps();
    match &steps[0].statement {
        Statement::CreateTable { name, columns, if_not_exists } => {
            assert_eq!(name, "notes");
            assert!(*if_not_exists);
            let names: Vec<&str> = columns.iter().map(|c| c.name.as_str()).collect();
            assert_eq!(
                names,
                vec!["id", "content", "created_at", "modified_at", "type", "tags", "properties"]
            );
            assert!(columns[0].primary_key);
            assert_eq!(columns[0].ty, ColType::Text);
            assert_eq!(columns[6].ty, ColType::Json);
        }
        other => panic!("step 1 is not a table creation: {:?}", other),
    }
    match &steps[1].statement {
        Statement::CreateTable { name, columns, if_not_exists } => {
            assert_eq!(name, "tasks");
            assert!(*if_not_exists);
            let names: Vec<&str> = columns.iter().map(|c| c.name.as_str()).collect();
            assert_eq!(
                names,
                vec![
                    "id",
                    "title",
                    "notes",
                    "is_done",
                    "created_at",
                    "done_at",
                    "journal_date",
                    "tags",
                    "priority",
                ]
            );
            assert!(columns[1].not_null);
            assert!(columns[6].not_null);
            assert_eq!(columns[8].default_int, Some(0));
        }
        other => panic!("step 2 is not a table creation: {:?}", other),
    }
    match &steps[2].statement {
        Statement::AddColumn { table, column } => {
            assert_eq!(table, "notes");
            assert_eq!(column.name, "path");
            assert_eq!(column.ty, ColType::Text);
        }
        other => panic!("step 3 is not a column addition: {:?}", other),
    }
    match &steps[3].statement {
        Statement::CreateTable { name, columns, if_not_exists } => {
            assert_eq!(name, "users");
            assert!(*if_not_exists);
            let names: Vec<&str> = columns.iter().map(|c| c.name.as_str()).collect();
            assert_eq!(names, vec!["id", "name", "email"]);
            assert!(columns[0].primary_key);
            assert!(columns[0].autoincrement);
            assert_eq!(columns[0].ty, ColType::Integer);
            assert!(columns[1].not_null);
        }
        other => panic!("step 4 is not a table creation: {:?}", other),
    }
    match &steps[4].statement {
        Statement::AddColumn { table, column } => {
            assert_eq!(table, "notes");
            assert_eq!(column.name, "ai_insights");
            assert_eq!(column.ty, ColType::Text);
        }
        other => panic!("step 5 is not a column addition: {:?}", other),
    }
    for s in steps.iter() {
        assert_eq!(s.kind, MigrationKind::Up);
    }
}

#[test]
fn new_accepts_well_formed_sequences() {
    let reg = Registry::new(vec![step(1, "one"), step(2, "two"), step(7, "seven")]).unwrap();
    assert_eq!(reg.len(), 3);
    assert_eq!(reg.max_version(), 7);
}

#[test]
fn new_accepts_the_empty_sequence() {
    let reg = Registry::new(Vec::new()).unwrap();
    assert_eq!(reg.len(), 0);
    assert_eq!(reg.max_version(), 0);
}

#[test]
fn new_rejects_duplicate_versions() {
    let r = Registry::new(vec![step(1, "one"), step(2, "two"), step(2, "again")]);
    assert_eq!(r.unwrap_err(), RegistryError::VersionConflict { prev: 2, next: 2 });
}

#[test]
fn new_rejects_out_of_order_versions() {
    let r = Registry::new(vec![step(3, "three"), step(1, "one")]);
    assert_eq!(r.unwrap_err(), RegistryError::VersionConflict { prev: 3, next: 1 });
}

#[test]
fn new_rejects_version_zero() {
    let r = Registry::new(vec![step(0, "zero")]);
    assert_eq!(r.unwrap_err(), RegistryError::ZeroVersion);
}

#[test]
fn new_rejects_empty_descriptions() {
    let r = Registry::new(vec![step(1, "one"), step(4, "")]);
    assert_eq!(r.unwrap_err(), RegistryError::EmptyDescription { version: 4 });
}
