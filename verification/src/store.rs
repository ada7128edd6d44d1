//! An explicit model of the persistent store the migrations act on: the
//! current-version register together with the schema (tables and their
//! columns).
//!
//! Replaying a registry is a state machine: every step whose version exceeds
//! the recorded one is applied in order and, on success, the recorded version
//! becomes the step's version. A step that fails commits nothing — neither
//! its schema change nor its version — and the replay stops there, fatally.

use vstd::prelude::*;
use crate::migration::{Column, ColumnModel, MigrationStep, Statement, StatementModel, StepModel};
use crate::migration::cols_model;
use crate::migration::Registry;

verus! {

/// One table of the schema: its name and its columns, in declaration order.
#[derive(Debug, PartialEq, Eq)]
pub struct Table {
    pub name: String,
    pub columns: Vec<Column>,
}

/// Mathematical model of a [`Table`].
#[verifier::ext_equal]
pub struct TableModel {
    pub name: Seq<char>,
    pub columns: Seq<ColumnModel>,
}

impl View for Table {
    type V = TableModel;

    open spec fn view(&self) -> TableModel {
        TableModel { name: self.name@, columns: cols_model(self.columns@) }
    }
}

/// The models of a sequence of tables.
pub open spec fn tables_model(ts: Seq<Table>) -> Seq<TableModel> {
    ts.map_values(|t: Table| t@)
}

/// The store: the recorded schema version plus the schema itself.
#[derive(Debug, PartialEq, Eq)]
pub struct Store {
    pub version: u64,
    pub tables: Vec<Table>,
}

/// Mathematical model of a [`Store`].
#[verifier::ext_equal]
pub struct StoreModel {
    pub version: u64,
    pub tables: Seq<TableModel>,
}

impl View for Store {
    type V = StoreModel;

    open spec fn view(&self) -> StoreModel {
        StoreModel { version: self.version, tables: tables_model(self.tables@) }
    }
}

/// The store a fresh installation starts from: no schema, version 0.
pub open spec fn empty_store() -> StoreModel {
    StoreModel { version: 0, tables: Seq::empty() }
}

/// Why a single schema-altering statement could not be executed.
#[derive(Debug, PartialEq, Eq)]
pub enum SchemaError {
    /// An unguarded creation named a table that already exists.
    TableExists { table: String },
    /// A column addition named a table that does not exist.
    NoSuchTable { table: String },
    /// A column addition named a column the table already has.
    DuplicateColumn { table: String, column: String },
}

/// Mathematical model of a [`SchemaError`].
#[verifier::ext_equal]
pub enum SchemaErrorModel {
    TableExists { table: Seq<char> },
    NoSuchTable { table: Seq<char> },
    DuplicateColumn { table: Seq<char>, column: Seq<char> },
}

impl View for SchemaError {
    type V = SchemaErrorModel;

    open spec fn view(&self) -> SchemaErrorModel {
        match self {
            SchemaError::TableExists { table } => SchemaErrorModel::TableExists { table: table@ },
            SchemaError::NoSuchTable { table } => SchemaErrorModel::NoSuchTable { table: table@ },
            SchemaError::DuplicateColumn { table, column } => {
                SchemaErrorModel::DuplicateColumn { table: table@, column: column@ }
            },
        }
    }
}

/// A fatal migration failure: the step of this version could not be applied.
/// The failing step commits nothing; startup must abort.
#[derive(Debug, PartialEq, Eq)]
pub struct ApplyError {
    pub version: u64,
    pub cause: SchemaError,
}

/// Mathematical model of an [`ApplyError`].
#[verifier::ext_equal]
pub struct ApplyErrorModel {
    pub version: u64,
    pub cause: SchemaErrorModel,
}

impl View for ApplyError {
    type V = ApplyErrorModel;

    open spec fn view(&self) -> ApplyErrorModel {
        ApplyErrorModel { version: self.version, cause: self.cause@ }
    }
}

/// Some column of the sequence bears this name.
pub open spec fn spec_has_column(cols: Seq<ColumnModel>, name: Seq<char>) -> bool {
    exists|i: int| 0 <= i < cols.len() && (#[trigger] cols[i]).name == name
}

/// Some table of the schema bears this name.
pub open spec fn spec_has_table(tables: Seq<TableModel>, name: Seq<char>) -> bool {
    exists|i: int| 0 <= i < tables.len() && (#[trigger] tables[i]).name == name
}

/// What adding a column does to a schema: the first table bearing the name
/// gains the column at the end, unless it already has one of that name; a
/// schema without the table rejects the statement.
pub open spec fn spec_add_column(
    tables: Seq<TableModel>,
    table: Seq<char>,
    col: ColumnModel,
) -> Result<Seq<TableModel>, SchemaErrorModel>
    decreases tables.len(),
{
    if tables.len() == 0 {
        Err(SchemaErrorModel::NoSuchTable { table })
    } else if tables[0].name == table {
        if spec_has_column(tables[0].columns, col.name) {
            Err(SchemaErrorModel::DuplicateColumn { table, column: col.name })
        } else {
            Ok(
                seq![TableModel { name: tables[0].name, columns: tables[0].columns.push(col) }]
                    + tables.skip(1),
            )
        }
    } else {
        match spec_add_column(tables.skip(1), table, col) {
            Ok(rest) => Ok(seq![tables[0]] + rest),
            Err(e) => Err(e),
        }
    }
}

/// What creating a table does to a schema: a new table appears at the end,
/// unless one of that name exists already — a no-op under an existence
/// guard, an error without one.
pub open spec fn spec_create_table(
    tables: Seq<TableModel>,
    name: Seq<char>,
    columns: Seq<ColumnModel>,
    if_not_exists: bool,
) -> Result<Seq<TableModel>, SchemaErrorModel> {
    if spec_has_table(tables, name) {
        if if_not_exists {
            Ok(tables)
        } else {
            Err(SchemaErrorModel::TableExists { table: name })
        }
    } else {
        Ok(tables.push(TableModel { name, columns }))
    }
}

/// What one statement does to a schema.
pub open spec fn spec_apply_statement(
    tables: Seq<TableModel>,
    stmt: StatementModel,
) -> Result<Seq<TableModel>, SchemaErrorModel> {
    match stmt {
        StatementModel::CreateTable { name, columns, if_not_exists } => {
            spec_create_table(tables, name, columns, if_not_exists)
        },
        StatementModel::AddColumn { table, column } => spec_add_column(tables, table, column),
    }
}

/// What one step does to a store. A step at or below the recorded version is
/// skipped; otherwise its statement runs and, on success, the recorded
/// version becomes the step's version. A failing step changes nothing.
pub open spec fn spec_apply_step(s: StoreModel, step: StepModel) -> Result<
    StoreModel,
    ApplyErrorModel,
> {
    if step.version <= s.version {
        Ok(s)
    } else {
        match spec_apply_statement(s.tables, step.statement) {
            Ok(t) => Ok(StoreModel { version: step.version, tables: t }),
            Err(e) => Err(ApplyErrorModel { version: step.version, cause: e }),
        }
    }
}

/// What replaying a whole registry does to a store: the final store, the
/// versions of the steps actually applied, in order, and the error that
/// stopped the replay, if one did. On an error the final store is the state
/// the preceding steps had reached: the failing step commits nothing.
pub open spec fn spec_apply_registry(s: StoreModel, steps: Seq<StepModel>) -> (
    StoreModel,
    Seq<u64>,
    Option<ApplyErrorModel>,
)
    decreases steps.len(),
{
    if steps.len() == 0 {
        (s, Seq::empty(), None)
    } else if steps[0].version <= s.version {
        spec_apply_registry(s, steps.skip(1))
    } else {
        match spec_apply_statement(s.tables, steps[0].statement) {
            Ok(t) => {
                let s2 = StoreModel { version: steps[0].version, tables: t };
                let rest = spec_apply_registry(s2, steps.skip(1));
                (rest.0, seq![steps[0].version] + rest.1, rest.2)
            },
            Err(e) => (
                s,
                Seq::empty(),
                Some(ApplyErrorModel { version: steps[0].version, cause: e }),
            ),
        }
    }
}

/// The version of every step, in registry order.
pub open spec fn versions_of(steps: Seq<StepModel>) -> Seq<u64> {
    steps.map_values(|st: StepModel| st.version)
}

/// The versions of the steps a store recorded at version `v` still has to
/// apply: those above `v`, in registry order.
pub open spec fn applicable_versions(steps: Seq<StepModel>, v: u64) -> Seq<u64>
    decreases steps.len(),
{
    if steps.len() == 0 {
        Seq::empty()
    } else if steps[0].version > v {
        seq![steps[0].version] + applicable_versions(steps.skip(1), v)
    } else {
        applicable_versions(steps.skip(1), v)
    }
}

/// A sequence of version numbers that increases strictly.
pub open spec fn u64_strictly_increasing(vs: Seq<u64>) -> bool {
    forall|i: int, j: int| 0 <= i < j < vs.len() ==> vs[i] < vs[j]
}

/// The value is the version of one of the steps.
pub open spec fn among_versions(x: u64, steps: Seq<StepModel>) -> bool {
    exists|k: int| 0 <= k < steps.len() && (#[trigger] steps[k]).version == x
}

/// When every step lies above the threshold, none is skipped.
proof fn lemma_applicable_all(steps: Seq<StepModel>, v: u64)
    requires
        forall|k: int| 0 <= k < steps.len() ==> (#[trigger] steps[k]).version > v,
    ensures
        applicable_versions(steps, v) == versions_of(steps),
    decreases steps.len(),
{
    if steps.len() == 0 {
        assert(applicable_versions(steps, v) =~= versions_of(steps));
    } else {
        let rest = steps.skip(1);
        assert forall|k: int| 0 <= k < rest.len() implies (#[trigger] rest[k]).version > v by {
            assert(rest[k] == steps[k + 1]);
        }
        lemma_applicable_all(rest, v);
        assert(seq![steps[0].version] + versions_of(rest) =~= versions_of(steps));
    }
}

/// The applicable versions all lie above the threshold, all come from the
/// registry, and inherit the registry's strict order.
proof fn lemma_applicable_increasing(steps: Seq<StepModel>, v: u64)
    requires
        crate::migration::versions_strictly_increasing(steps),
    ensures
        u64_strictly_increasing(applicable_versions(steps, v)),
        forall|m: int|
            0 <= m < applicable_versions(steps, v).len() ==> (#[trigger] applicable_versions(
                steps,
                v,
            )[m]) > v && among_versions(applicable_versions(steps, v)[m], steps),
    decreases steps.len(),
{
    if steps.len() > 0 {
        let rest = steps.skip(1);
        let app = applicable_versions(steps, v);
        let app_rest = applicable_versions(rest, v);
        assert forall|k: int, l: int|
            0 <= k < l < rest.len() implies (#[trigger] rest[k]).version < (
        #[trigger] rest[l]).version by {
            assert(rest[k] == steps[k + 1]);
            assert(rest[l] == steps[l + 1]);
        }
        lemma_applicable_increasing(rest, v);
        assert forall|m: int|
            0 <= m < app_rest.len() implies app_rest[m] > steps[0].version by {
            let k = choose|k: int| 0 <= k < rest.len() && (#[trigger] rest[k]).version
                == app_rest[m];
            assert(rest[k] == steps[k + 1]);
            assert(steps[0].version < steps[k + 1].version);
        }
        assert forall|m: int|
            0 <= m < app_rest.len() implies among_versions(app_rest[m], steps) by {
            let k = choose|k: int| 0 <= k < rest.len() && (#[trigger] rest[k]).version
                == app_rest[m];
            assert(steps[k + 1].version == app_rest[m]);
        }
        if steps[0].version > v {
            assert(app == seq![steps[0].version] + app_rest);
            assert(app[0] == steps[0].version);
            assert forall|m: int| 1 <= m < app.len() implies app[m] == app_rest[m - 1] by {}
        }
    }
}

/// Law: replaying a registry against a store recorded at some version
/// applies exactly the steps above that version, in ascending version
/// order, and a replay that succeeds leaves the store at the registry's
/// highest version (or where it stood, if nothing was left to apply).
pub proof fn lemma_replay_from_version(s: StoreModel, steps: Seq<StepModel>)
    requires
        crate::migration::versions_strictly_increasing(steps),
    ensures
        ({
            let r = spec_apply_registry(s, steps);
            &&& (r.2 is None ==> r.1 == applicable_versions(steps, s.version))
            &&& (r.2 is None ==> u64_strictly_increasing(r.1))
            &&& (r.2 is None ==> forall|m: int|
                0 <= m < r.1.len() ==> (#[trigger] r.1[m]) > s.version && among_versions(
                    r.1[m],
                    steps,
                ))
            &&& (r.2 is None ==> r.0.version == (if steps.len() > 0 && steps.last().version
                > s.version {
                steps.last().version
            } else {
                s.version
            }))
        }),
    decreases steps.len(),
{
    if steps.len() == 0 {
        return ;
    }
    let rest = steps.skip(1);
    assert forall|k: int, l: int|
        0 <= k < l < rest.len() implies (#[trigger] rest[k]).version < (
    #[trigger] rest[l]).version by {
        assert(rest[k] == steps[k + 1]);
        assert(rest[l] == steps[l + 1]);
    }
    lemma_applicable_increasing(steps, s.version);
    if steps[0].version <= s.version {
        lemma_replay_from_version(s, rest);
        if rest.len() > 0 {
            assert(steps.last() == rest.last());
        } else {
            assert(steps.last() == steps[0]);
        }
    } else {
        match spec_apply_statement(s.tables, steps[0].statement) {
            Ok(t) => {
                let s2 = StoreModel { version: steps[0].version, tables: t };
                lemma_replay_from_version(s2, rest);
                assert forall|k: int|
                    0 <= k < rest.len() implies (#[trigger] rest[k]).version > s2.version by {
                    assert(rest[k] == steps[k + 1]);
                    assert(steps[0].version < steps[k + 1].version);
                }
                assert forall|k: int|
                    0 <= k < rest.len() implies (#[trigger] rest[k]).version > s.version by {
                    assert(rest[k] == steps[k + 1]);
                }
                lemma_applicable_all(rest, s2.version);
                lemma_applicable_all(rest, s.version);
                let r = spec_apply_registry(s, steps);
                if r.2 is None {
                    assert(r.1 == seq![steps[0].version] + applicable_versions(rest, s.version));
                    if rest.len() > 0 {
                        assert(steps.last() == rest.last());
                        assert(rest.last().version > s2.version);
                    } else {
                        assert(steps.last() == steps[0]);
                    }
                }
            },
            Err(_) => {},
        }
    }
}

/// Two sequences differing at one position differ.
proof fn lemma_seq_neq_at(a: Seq<char>, b: Seq<char>, i: int)
    requires
        0 <= i < a.len(),
        0 <= i < b.len(),
        a[i] != b[i],
    ensures
        a != b,
{
    if a == b {
        assert(a[i] == b[i]);
    }
}

/// Law: replaying the shipped registry against the empty store succeeds,
/// applies its five steps in order, and yields exactly the current schema —
/// notes (including the two later column additions), tasks and users — with
/// the store recorded at the registry's highest version. A store already at
/// version 2, holding the first two steps' tables, replays only the steps
/// with versions 3, 4 and 5, in that order, to the same end.
pub proof fn lemma_shipped_registry_builds_schema()
    ensures
        ({
            let r = spec_apply_registry(empty_store(), crate::migration::spec_registry());
            &&& r.2 is None
            &&& r.1 =~= seq![1u64, 2u64, 3u64, 4u64, 5u64]
            &&& r.0.version == 5
            &&& r.0.tables =~= seq![
                TableModel {
                    name: "notes"@,
                    columns: crate::migration::spec_notes_columns().push(
                        crate::migration::spec_plain_col("path"@, crate::migration::ColType::Text),
                    ).push(
                        crate::migration::spec_plain_col(
                            "ai_insights"@,
                            crate::migration::ColType::Text,
                        ),
                    ),
                },
                TableModel { name: "tasks"@, columns: crate::migration::spec_tasks_columns() },
                TableModel { name: "users"@, columns: crate::migration::spec_users_columns() },
            ]
        }),
        ({
            let at_two = StoreModel {
                version: 2,
                tables: seq![
                    TableModel {
                        name: "notes"@,
                        columns: crate::migration::spec_notes_columns(),
                    },
                    TableModel {
                        name: "tasks"@,
                        columns: crate::migration::spec_tasks_columns(),
                    },
                ],
            };
            let p = spec_apply_registry(at_two, crate::migration::spec_registry());
            &&& p.2 is None
            &&& p.1 =~= seq![3u64, 4u64, 5u64]
            &&& p.0.version == 5
            &&& p.0 == spec_apply_registry(empty_store(), crate::migration::spec_registry()).0
        }),
{
    reveal_strlit("notes");
    reveal_strlit("tasks");
    reveal_strlit("users");
    reveal_strlit("id");
    reveal_strlit("content");
    reveal_strlit("created_at");
    reveal_strlit("modified_at");
    reveal_strlit("type");
    reveal_strlit("tags");
    reveal_strlit("properties");
    reveal_strlit("path");
    reveal_strlit("ai_insights");
    let reg = crate::migration::spec_registry();
    let notes0 = TableModel { name: "notes"@, columns: crate::migration::spec_notes_columns() };
    let tasks = TableModel { name: "tasks"@, columns: crate::migration::spec_tasks_columns() };
    let users = TableModel { name: "users"@, columns: crate::migration::spec_users_columns() };
    let path_col = crate::migration::spec_plain_col("path"@, crate::migration::ColType::Text);
    let ai_col = crate::migration::spec_plain_col(
        "ai_insights"@,
        crate::migration::ColType::Text,
    );
    let notes1 = TableModel { name: "notes"@, columns: notes0.columns.push(path_col) };
    let notes2 = TableModel { name: "notes"@, columns: notes1.columns.push(ai_col) };
    let s0 = empty_store();

    // Step 1 creates the notes table in the empty schema.
    assert(!spec_has_table(s0.tables, "notes"@));
    let t1 = s0.tables.push(notes0);
    assert(spec_apply_statement(s0.tables, reg[0].statement) == Ok::<
        Seq<TableModel>,
        SchemaErrorModel,
    >(t1));
    let s1 = StoreModel { version: 1, tables: t1 };

    // Step 2 creates the tasks table beside it.
    assert(t1[0] == notes0);
    lemma_seq_neq_at("notes"@, "tasks"@, 0);
    assert("notes"@ != "tasks"@);
    assert forall|k: int| 0 <= k < t1.len() implies (#[trigger] t1[k]).name != "tasks"@ by {
        assert(t1[k] == notes0);
    }
    assert(!spec_has_table(t1, "tasks"@));
    let t2 = t1.push(tasks);
    assert(spec_apply_statement(s1.tables, reg[1].statement) == Ok::<
        Seq<TableModel>,
        SchemaErrorModel,
    >(t2));
    let s2 = StoreModel { version: 2, tables: t2 };

    // Step 3 adds the path column to notes.
    assert(t2[0] == notes0);
    let ncols = crate::migration::spec_notes_columns();
    assert(ncols.len() == 7);
    assert(ncols[0].name == "id"@);
    assert(ncols[1].name == "content"@);
    assert(ncols[2].name == "created_at"@);
    assert(ncols[3].name == "modified_at"@);
    assert(ncols[4].name == "type"@);
    assert(ncols[5].name == "tags"@);
    assert(ncols[6].name == "properties"@);
    lemma_seq_neq_at("id"@, "path"@, 0);
    lemma_seq_neq_at("content"@, "path"@, 0);
    lemma_seq_neq_at("created_at"@, "path"@, 0);
    lemma_seq_neq_at("modified_at"@, "path"@, 0);
    lemma_seq_neq_at("type"@, "path"@, 0);
    lemma_seq_neq_at("tags"@, "path"@, 0);
    lemma_seq_neq_at("properties"@, "path"@, 1);
    assert forall|k: int| 0 <= k < ncols.len() implies (#[trigger] ncols[k]).name != "path"@ by {
        if k == 0 {
        } else if k == 1 {
        } else if k == 2 {
        } else if k == 3 {
        } else if k == 4 {
        } else if k == 5 {
        } else {
            assert(k == 6);
        }
    }
    assert(!spec_has_column(ncols, "path"@));
    let t3 = seq![notes1] + t2.skip(1);
    assert(spec_apply_statement(s2.tables, reg[2].statement) == Ok::<
        Seq<TableModel>,
        SchemaErrorModel,
    >(t3));
    assert(t3 =~= seq![notes1, tasks]);
    let s3 = StoreModel { version: 3, tables: t3 };

    // Step 4 creates the users table.
    assert(t3[0] == notes1 && t3[1] == tasks);
    lemma_seq_neq_at("notes"@, "users"@, 0);
    lemma_seq_neq_at("tasks"@, "users"@, 0);
    assert forall|k: int| 0 <= k < t3.len() implies (#[trigger] t3[k]).name != "users"@ by {
        if k == 0 {
            assert(t3[0] == notes1);
        } else {
            assert(k == 1);
            assert(t3[1] == tasks);
        }
    }
    assert(!spec_has_table(t3, "users"@));
    let t4 = t3.push(users);
    assert(spec_apply_statement(s3.tables, reg[3].statement) == Ok::<
        Seq<TableModel>,
        SchemaErrorModel,
    >(t4));
    let s4 = StoreModel { version: 4, tables: t4 };

    // Step 5 adds the ai_insights column to notes.
    assert(t4[0] == notes1);
    assert(notes1.columns.len() == 8);
    assert(notes1.columns[7] == path_col);
    assert(forall|k: int| 0 <= k < 7 ==> notes1.columns[k] == ncols[k]);
    lemma_seq_neq_at("id"@, "ai_insights"@, 0);
    lemma_seq_neq_at("content"@, "ai_insights"@, 0);
    lemma_seq_neq_at("created_at"@, "ai_insights"@, 0);
    lemma_seq_neq_at("modified_at"@, "ai_insights"@, 0);
    lemma_seq_neq_at("type"@, "ai_insights"@, 0);
    lemma_seq_neq_at("tags"@, "ai_insights"@, 0);
    lemma_seq_neq_at("properties"@, "ai_insights"@, 0);
    lemma_seq_neq_at("path"@, "ai_insights"@, 0);
    assert forall|k: int|
        0 <= k < notes1.columns.len() implies (#[trigger] notes1.columns[k]).name
        != "ai_insights"@ by {
        if k < 7 {
            assert(notes1.columns[k] == ncols[k]);
            if k == 0 {
            } else if k == 1 {
            } else if k == 2 {
            } else if k == 3 {
            } else if k == 4 {
            } else if k == 5 {
            } else {
                assert(k == 6);
            }
        } else {
            assert(k == 7);
            assert(notes1.columns[7] == path_col);
        }
    }
    assert(!spec_has_column(notes1.columns, "ai_insights"@));
    let t5 = seq![notes2] + t4.skip(1);
    assert(spec_apply_statement(s4.tables, reg[4].statement) == Ok::<
        Seq<TableModel>,
        SchemaErrorModel,
    >(t5));
    assert(t5 =~= seq![notes2, tasks, users]);
    let s5 = StoreModel { version: 5, tables: t5 };

    // Chain the five applications back together, last step first.
    assert(reg.skip(4).skip(1) =~= reg.skip(5));
    assert(reg.skip(3).skip(1) =~= reg.skip(4));
    assert(reg.skip(2).skip(1) =~= reg.skip(3));
    assert(reg.skip(1).skip(1) =~= reg.skip(2));
    assert(reg.skip(5) =~= Seq::<StepModel>::empty());
    assert(reg.skip(4)[0] == reg[4]);
    assert(reg.skip(3)[0] == reg[3]);
    assert(reg.skip(2)[0] == reg[2]);
    assert(reg.skip(1)[0] == reg[1]);
    assert(reg.skip(0) =~= reg);
    let r5 = spec_apply_registry(s5, reg.skip(5));
    assert(r5.0 == s5 && r5.1 =~= Seq::<u64>::empty() && r5.2 is None);
    let r4 = spec_apply_registry(s4, reg.skip(4));
    assert(r4.0 == s5 && r4.2 is None);
    assert(r4.1 =~= seq![5u64]);
    let r3 = spec_apply_registry(s3, reg.skip(3));
    assert(r3.0 == s5 && r3.2 is None);
    assert(r3.1 =~= seq![4u64, 5u64]);
    let r2 = spec_apply_registry(s2, reg.skip(2));
    assert(r2.0 == s5 && r2.2 is None);
    assert(r2.1 =~= seq![3u64, 4u64, 5u64]);
    let r1 = spec_apply_registry(s1, reg.skip(1));
    assert(r1.0 == s5 && r1.2 is None);
    assert(r1.1 =~= seq![2u64, 3u64, 4u64, 5u64]);
    let r0 = spec_apply_registry(s0, reg);
    assert(r0.0 == s5 && r0.2 is None);
    assert(r0.1 =~= seq![1u64, 2u64, 3u64, 4u64, 5u64]);

    // A store at version 2 with the first two tables skips steps 1 and 2 and
    // continues exactly as above.
    let at_two = StoreModel { version: 2, tables: seq![notes0, tasks] };
    assert(t2 =~= seq![notes0, tasks]);
    assert(at_two == s2);
    assert(reg[0].version == 1 && reg[1].version == 2);
    let p = spec_apply_registry(at_two, reg);
    assert(p == spec_apply_registry(s2, reg.skip(1)));
    assert(p == r2);
    assert(p.1 =~= seq![3u64, 4u64, 5u64]);
}

/// Law: a guarded table creation is idempotent. Once it has succeeded,
/// running the same statement again succeeds and changes nothing.
pub proof fn lemma_guarded_create_idempotent(
    tables: Seq<TableModel>,
    name: Seq<char>,
    columns: Seq<ColumnModel>,
)
    ensures
        ({
            let stmt = StatementModel::CreateTable { name, columns, if_not_exists: true };
            spec_apply_statement(tables, stmt) matches Ok(t) ==> spec_apply_statement(t, stmt)
                == Ok::<Seq<TableModel>, SchemaErrorModel>(t)
        }),
{
    let stmt = StatementModel::CreateTable { name, columns, if_not_exists: true };
    if !spec_has_table(tables, name) {
        let t = tables.push(TableModel { name, columns });
        assert(t[t.len() - 1].name == name);
        assert(spec_has_table(t, name));
    }
}

/// Law: an unguarded column addition is not idempotent. Once it has been
/// applied, applying it again is rejected as a duplicate column.
pub proof fn lemma_add_column_rejects_reapply(
    tables: Seq<TableModel>,
    table: Seq<char>,
    col: ColumnModel,
)
    ensures
        spec_add_column(tables, table, col) matches Ok(t) ==> spec_add_column(t, table, col)
            == Err::<Seq<TableModel>, SchemaErrorModel>(
            SchemaErrorModel::DuplicateColumn { table, column: col.name },
        ),
    decreases tables.len(),
{
    match spec_add_column(tables, table, col) {
        Ok(t) => {
            if tables[0].name == table {
                let updated = TableModel {
                    name: tables[0].name,
                    columns: tables[0].columns.push(col),
                };
                assert(t[0] == updated);
                assert(updated.columns[updated.columns.len() - 1].name == col.name);
                assert(spec_has_column(updated.columns, col.name));
            } else {
                lemma_add_column_rejects_reapply(tables.skip(1), table, col);
                match spec_add_column(tables.skip(1), table, col) {
                    Ok(rest2) => {
                        assert(t[0] == tables[0]);
                        assert(t.skip(1) =~= rest2);
                    },
                    Err(_) => {
                        assert(false);
                    },
                }
            }
        },
        Err(_) => {},
    }
}

/// Law: a failing replay commits nothing of the failing step. The version
/// the store records never drops below where it started and stays strictly
/// below the failing step's version.
pub proof fn lemma_failed_replay_commits_nothing(s: StoreModel, steps: Seq<StepModel>)
    ensures
        spec_apply_registry(s, steps).0.version >= s.version,
        spec_apply_registry(s, steps).2 matches Some(e) ==> spec_apply_registry(
            s,
            steps,
        ).0.version < e.version,
    decreases steps.len(),
{
    if steps.len() == 0 {
    } else if steps[0].version <= s.version {
        lemma_failed_replay_commits_nothing(s, steps.skip(1));
    } else {
        match spec_apply_statement(s.tables, steps[0].statement) {
            Ok(t) => {
                lemma_failed_replay_commits_nothing(
                    StoreModel { version: steps[0].version, tables: t },
                    steps.skip(1),
                );
            },
            Err(_) => {},
        }
    }
}

/// Adding a column whose table stands at index `i` (and nowhere earlier)
/// either rejects a duplicate column or updates exactly that table.
proof fn lemma_add_column_found(tables: Seq<TableModel>, table: Seq<char>, col: ColumnModel, i: int)
    requires
        0 <= i < tables.len(),
        tables[i].name == table,
        forall|k: int| 0 <= k < i ==> (#[trigger] tables[k]).name != table,
    ensures
        spec_add_column(tables, table, col) == (if spec_has_column(tables[i].columns, col.name) {
            Err::<Seq<TableModel>, SchemaErrorModel>(
                SchemaErrorModel::DuplicateColumn { table, column: col.name },
            )
        } else {
            Ok::<Seq<TableModel>, SchemaErrorModel>(
                tables.update(
                    i,
                    TableModel { name: tables[i].name, columns: tables[i].columns.push(col) },
                ),
            )
        }),
    decreases i,
{
    let updated = TableModel { name: tables[i].name, columns: tables[i].columns.push(col) };
    if i == 0 {
        if !spec_has_column(tables[0].columns, col.name) {
            assert(seq![updated] + tables.skip(1) =~= tables.update(0, updated));
        }
    } else {
        let rest = tables.skip(1);
        assert forall|k: int| 0 <= k < i - 1 implies (#[trigger] rest[k]).name != table by {
            assert(rest[k] == tables[k + 1]);
        }
        assert(rest[i - 1] == tables[i]);
        lemma_add_column_found(rest, table, col, i - 1);
        if !spec_has_column(tables[i].columns, col.name) {
            assert(seq![tables[0]] + rest.update(i - 1, updated) =~= tables.update(i, updated));
        }
    }
}

/// Adding a column to a schema with no table of that name is rejected.
proof fn lemma_add_column_missing(tables: Seq<TableModel>, table: Seq<char>, col: ColumnModel)
    requires
        forall|k: int| 0 <= k < tables.len() ==> (#[trigger] tables[k]).name != table,
    ensures
        spec_add_column(tables, table, col) == Err::<Seq<TableModel>, SchemaErrorModel>(
            SchemaErrorModel::NoSuchTable { table },
        ),
    decreases tables.len(),
{
    if tables.len() > 0 {
        let rest = tables.skip(1);
        assert forall|k: int| 0 <= k < rest.len() implies (#[trigger] rest[k]).name != table by {
            assert(rest[k] == tables[k + 1]);
        }
        lemma_add_column_missing(rest, table, col);
    }
}

/// Index of the first table bearing the name, if any.
fn find_table(tables: &Vec<Table>, name: &String) -> (r: Option<usize>)
    ensures
        match r {
            Some(i) => 0 <= i < tables@.len() && tables_model(tables@)[i as int].name == name@
                && (forall|k: int|
                0 <= k < i ==> (#[trigger] tables_model(tables@)[k]).name != name@),
            None => forall|k: int|
                0 <= k < tables@.len() ==> (#[trigger] tables_model(tables@)[k]).name != name@,
        },
{
    let n = tables.len();
    let mut j: usize = 0;
    while j < n
        invariant
            n == tables@.len(),
            0 <= j <= n,
            forall|k: int| 0 <= k < j ==> (#[trigger] tables_model(tables@)[k]).name != name@,
        decreases n - j,
    {
        if tables[j].name == *name {
            assert(tables_model(tables@)[j as int].name == name@);
            return Some(j);
        }
        assert(tables_model(tables@)[j as int].name != name@);
        j = j + 1;
    }
    None
}

/// Whether the column list already holds a column of this name.
fn has_column(cols: &Vec<Column>, name: &String) -> (r: bool)
    ensures
        r == spec_has_column(cols_model(cols@), name@),
{
    let n = cols.len();
    let mut j: usize = 0;
    while j < n
        invariant
            n == cols@.len(),
            0 <= j <= n,
            forall|k: int| 0 <= k < j ==> (#[trigger] cols_model(cols@)[k]).name != name@,
        decreases n - j,
    {
        if cols[j].name == *name {
            assert(cols_model(cols@)[j as int].name == name@);
            return true;
        }
        assert(cols_model(cols@)[j as int].name != name@);
        j = j + 1;
    }
    false
}

/// A fresh copy of a column, field by field.
fn copy_column(c: &Column) -> (r: Column)
    ensures
        r@ == c@,
{
    Column {
        name: c.name.clone(),
        ty: c.ty,
        primary_key: c.primary_key,
        not_null: c.not_null,
        autoincrement: c.autoincrement,
        default_int: c.default_int,
    }
}

/// A fresh copy of a column list, element by element.
fn copy_columns(cols: &Vec<Column>) -> (r: Vec<Column>)
    ensures
        cols_model(r@) == cols_model(cols@),
{
    let n = cols.len();
    let mut r: Vec<Column> = Vec::new();
    let mut j: usize = 0;
    while j < n
        invariant
            n == cols@.len(),
            0 <= j <= n,
            r@.len() == j,
            forall|k: int| 0 <= k < j ==> #[trigger] cols_model(r@)[k] == cols_model(cols@)[k],
        decreases n - j,
    {
        let c = copy_column(&cols[j]);
        let ghost prev = r@;
        r.push(c);
        proof {
            assert forall|k: int| 0 <= k < j + 1 implies #[trigger] cols_model(r@)[k] == cols_model(
                cols@,
            )[k] by {
                if k < j {
                    assert(r@[k] == prev[k]);
                    assert(cols_model(prev)[k] == cols_model(cols@)[k]);
                } else {
                    assert(r@[k] == c);
                }
            }
        }
        j = j + 1;
    }
    assert(cols_model(r@) =~= cols_model(cols@));
    r
}

impl Store {
    /// The store a fresh installation starts from: no schema, version 0.
    pub fn empty() -> (s: Store)
        ensures
            s@ == empty_store(),
    {
        let s = Store { version: 0, tables: Vec::new() };
        proof {
            assert(tables_model(s.tables@) =~= Seq::<TableModel>::empty());
            assert(s@ =~= empty_store());
        }
        s
    }

    /// Executes one schema-altering statement against the schema, leaving the
    /// recorded version alone. Fails exactly where the statement is invalid
    /// for the current schema, and a failure changes nothing.
    pub fn apply_statement(&mut self, stmt: &Statement) -> (r: Result<(), SchemaError>)
        ensures
            final(self).version == old(self).version,
            match spec_apply_statement(old(self)@.tables, stmt@) {
                Ok(t) => r is Ok && final(self)@.tables == t,
                Err(e) => r matches Err(e2) && e2@ == e && *final(self) == *old(self),
            },
    {
        match stmt {
            Statement::CreateTable { name, columns, if_not_exists } => {
                match find_table(&self.tables, name) {
                    Some(_) => {
                        if *if_not_exists {
                            Ok(())
                        } else {
                            Err(SchemaError::TableExists { table: name.clone() })
                        }
                    },
                    None => {
                        let t = Table { name: name.clone(), columns: copy_columns(columns) };
                        assert(t@ == (TableModel { name: name@, columns: cols_model(columns@) }));
                        self.tables.push(t);
                        proof {
                            assert(tables_model(self.tables@) =~= tables_model(
                                old(self).tables@,
                            ).push(TableModel { name: name@, columns: cols_model(columns@) }));
                        }
                        Ok(())
                    },
                }
            },
            Statement::AddColumn { table, column } => {
                match find_table(&self.tables, table) {
                    None => {
                        proof {
                            lemma_add_column_missing(
                                tables_model(self.tables@),
                                table@,
                                column@,
                            );
                        }
                        Err(SchemaError::NoSuchTable { table: table.clone() })
                    },
                    Some(i) => {
                        proof {
                            lemma_add_column_found(
                                tables_model(self.tables@),
                                table@,
                                column@,
                                i as int,
                            );
                        }
                        if has_column(&self.tables[i].columns, &column.name) {
                            Err(SchemaError::DuplicateColumn {
                                table: table.clone(),
                                column: column.name.clone(),
                            })
                        } else {
                            let ghost before = tables_model(self.tables@);
                            let mut t = self.tables.remove(i);
                            t.columns.push(copy_column(column));
                            proof {
                                assert(cols_model(t.columns@) =~= before[i as int].columns.push(
                                    column@,
                                ));
                            }
                            let ghost updated = t@;
                            self.tables.insert(i, t);
                            proof {
                                assert(tables_model(self.tables@) =~= before.update(
                                    i as int,
                                    updated,
                                ));
                                assert(updated =~= (TableModel {
                                    name: before[i as int].name,
                                    columns: before[i as int].columns.push(column@),
                                }));
                            }
                            Ok(())
                        }
                    },
                }
            },
        }
    }

    /// Executes one migration step. A step at or below the recorded version
    /// is skipped (returning `false`); a newer one runs its statement and, on
    /// success, the recorded version becomes the step's version. A failure
    /// names the step's version and changes nothing.
    pub fn apply_step(&mut self, step: &MigrationStep) -> (r: Result<bool, ApplyError>)
        ensures
            match spec_apply_step(old(self)@, step@) {
                Ok(s2) => r matches Ok(applied) && final(self)@ == s2 && applied == (
                step@.version > old(self)@.version),
                Err(e) => r matches Err(e2) && e2@ == e && *final(self) == *old(self),
            },
    {
        if step.version <= self.version {
            Ok(false)
        } else {
            match self.apply_statement(&step.statement) {
                Ok(()) => {
                    self.version = step.version;
                    Ok(true)
                },
                Err(e) => Err(ApplyError { version: step.version, cause: e }),
            }
        }
    }

    /// Replays a whole registry: every step newer than the recorded version
    /// runs, in order, and the versions applied are returned. The first
    /// failure aborts the replay; steps already committed stay committed, but
    /// the failing step commits nothing.
    pub fn apply_registry(&mut self, reg: &Registry) -> (r: Result<Vec<u64>, ApplyError>)
        ensures
            final(self)@ == spec_apply_registry(old(self)@, reg@).0,
            match r {
                Ok(vs) => vs@ == spec_apply_registry(old(self)@, reg@).1 && spec_apply_registry(
                    old(self)@,
                    reg@,
                ).2 is None,
                Err(e) => Some(e@) == spec_apply_registry(old(self)@, reg@).2,
            },
    {
        let ghost orig = self@;
        let steps = reg.steps();
        let n = steps.len();
        let mut applied: Vec<u64> = Vec::new();
        let mut i: usize = 0;
        proof {
            assert(reg@.skip(0) =~= reg@);
            assert(applied@ + spec_apply_registry(self@, reg@).1 =~= spec_apply_registry(
                self@,
                reg@,
            ).1);
        }
        while i < n
            invariant
                n == steps@.len(),
                crate::migration::steps_model(steps@) == reg@,
                orig == old(self)@,
                0 <= i <= n,
                spec_apply_registry(orig, reg@).0 == spec_apply_registry(
                    self@,
                    reg@.skip(i as int),
                ).0,
                spec_apply_registry(orig, reg@).1 == applied@ + spec_apply_registry(
                    self@,
                    reg@.skip(i as int),
                ).1,
                spec_apply_registry(orig, reg@).2 == spec_apply_registry(
                    self@,
                    reg@.skip(i as int),
                ).2,
            decreases n - i,
        {
            let ghost suffix = reg@.skip(i as int);
            proof {
                assert(crate::migration::steps_model(steps@)[i as int] == steps@[i as int]@);
                assert(suffix[0] == reg@[i as int]);
                assert(suffix.skip(1) =~= reg@.skip(i as int + 1));
            }
            let step = &steps[i];
            match self.apply_step(step) {
                Ok(was_applied) => {
                    if was_applied {
                        let ghost prev = applied@;
                        applied.push(step.version);
                        proof {
                            assert(prev + (seq![step@.version] + spec_apply_registry(
                                self@,
                                suffix.skip(1),
                            ).1) =~= applied@ + spec_apply_registry(self@, suffix.skip(1)).1);
                        }
                    }
                },
                Err(e) => {
                    proof {
                        assert(spec_apply_registry(self@, suffix).2 == Some(e@));
                        assert(spec_apply_registry(self@, suffix).0 == self@);
                    }
                    return Err(e);
                },
            }
            i = i + 1;
        }
        proof {
            assert(reg@.skip(n as int) =~= Seq::<StepModel>::empty());
            assert(applied@ + Seq::<u64>::empty() =~= applied@);
        }
        Ok(applied)
    }
}

} // verus!
