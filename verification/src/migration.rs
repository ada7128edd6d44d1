//! Migration steps and the registry: the ordered, versioned list of schema
//! changes shipped with the application.
//!
//! A [`Registry`] can only be built through [`Registry::new`], which rejects
//! any sequence whose versions are not positive and strictly increasing or
//! whose descriptions are empty, so an ill-formed registry is unrepresentable.

use vstd::prelude::*;

verus! {

/// Column type tags of the schema surface.
#[derive(Clone, Copy, PartialEq, Eq, Structural, Debug)]
pub enum ColType {
    Text,
    Integer,
    Json,
}

/// Direction of a migration step. Only upgrades are defined: there is no
/// downgrade path, and a mistake is corrected by appending a new step.
#[derive(Clone, Copy, PartialEq, Eq, Structural, Debug)]
pub enum MigrationKind {
    Up,
}

/// One column of a table, as a schema-change statement declares it.
#[derive(Debug, PartialEq, Eq)]
pub struct Column {
    pub name: String,
    pub ty: ColType,
    pub primary_key: bool,
    pub not_null: bool,
    pub autoincrement: bool,
    pub default_int: Option<i64>,
}

/// Mathematical model of a [`Column`].
#[verifier::ext_equal]
pub struct ColumnModel {
    pub name: Seq<char>,
    pub ty: ColType,
    pub primary_key: bool,
    pub not_null: bool,
    pub autoincrement: bool,
    pub default_int: Option<i64>,
}

impl View for Column {
    type V = ColumnModel;

    open spec fn view(&self) -> ColumnModel {
        ColumnModel {
            name: self.name@,
            ty: self.ty,
            primary_key: self.primary_key,
            not_null: self.not_null,
            autoincrement: self.autoincrement,
            default_int: self.default_int,
        }
    }
}

/// The models of a sequence of columns.
pub open spec fn cols_model(cs: Seq<Column>) -> Seq<ColumnModel> {
    cs.map_values(|c: Column| c@)
}

/// One schema-altering operation. Creating a table may carry an existence
/// guard, under which re-running the statement against a store that already
/// has the table is a no-op; adding a column has no such guard.
#[derive(Debug, PartialEq, Eq)]
pub enum Statement {
    CreateTable { name: String, columns: Vec<Column>, if_not_exists: bool },
    AddColumn { table: String, column: Column },
}

/// Mathematical model of a [`Statement`].
#[verifier::ext_equal]
pub enum StatementModel {
    CreateTable { name: Seq<char>, columns: Seq<ColumnModel>, if_not_exists: bool },
    AddColumn { table: Seq<char>, column: ColumnModel },
}

impl View for Statement {
    type V = StatementModel;

    open spec fn view(&self) -> StatementModel {
        match self {
            Statement::CreateTable { name, columns, if_not_exists } => {
                StatementModel::CreateTable {
                    name: name@,
                    columns: cols_model(columns@),
                    if_not_exists: *if_not_exists,
                }
            },
            Statement::AddColumn { table, column } => {
                StatementModel::AddColumn { table: table@, column: column@ }
            },
        }
    }
}

/// One versioned, immutable schema-change step.
#[derive(Debug, PartialEq, Eq)]
pub struct MigrationStep {
    pub version: u64,
    pub description: String,
    pub statement: Statement,
    pub kind: MigrationKind,
}

/// Mathematical model of a [`MigrationStep`].
#[verifier::ext_equal]
pub struct StepModel {
    pub version: u64,
    pub description: Seq<char>,
    pub statement: StatementModel,
    pub kind: MigrationKind,
}

impl View for MigrationStep {
    type V = StepModel;

    open spec fn view(&self) -> StepModel {
        StepModel {
            version: self.version,
            description: self.description@,
            statement: self.statement@,
            kind: self.kind,
        }
    }
}

/// The models of a whole sequence of steps.
pub open spec fn steps_model(steps: Seq<MigrationStep>) -> Seq<StepModel> {
    steps.map_values(|s: MigrationStep| s@)
}

/// A definition error found while building a registry: the sequence of steps
/// is not a valid append-only history.
#[derive(Debug, PartialEq, Eq)]
pub enum RegistryError {
    /// Two adjacent steps are out of order or share a version number.
    VersionConflict { prev: u64, next: u64 },
    /// A step's version is not positive.
    ZeroVersion,
    /// A step's description is empty.
    EmptyDescription { version: u64 },
}

/// The first definition error in the sequence, scanning from position `i`:
/// a non-positive version, an empty description, or a version at or below
/// its predecessor's.
pub open spec fn spec_registry_defect_from(m: Seq<StepModel>, i: int) -> Option<RegistryError>
    decreases m.len() - i,
    when 0 <= i <= m.len()
{
    if i >= m.len() {
        None
    } else if m[i].version == 0 {
        Some(RegistryError::ZeroVersion)
    } else if m[i].description.len() == 0 {
        Some(RegistryError::EmptyDescription { version: m[i].version })
    } else if i > 0 && m[i - 1].version >= m[i].version {
        Some(RegistryError::VersionConflict { prev: m[i - 1].version, next: m[i].version })
    } else {
        spec_registry_defect_from(m, i + 1)
    }
}

/// The first definition error in the sequence, if any.
pub open spec fn spec_registry_defect(m: Seq<StepModel>) -> Option<RegistryError> {
    spec_registry_defect_from(m, 0)
}

/// Versions are strictly increasing along the sequence (hence unique).
pub open spec fn versions_strictly_increasing(steps: Seq<StepModel>) -> bool {
    forall|i: int, j: int|
        0 <= i < j < steps.len() ==> #[trigger] steps[i].version < #[trigger] steps[j].version
}

/// A single step is well formed: positive version, non-empty description.
pub open spec fn step_wf(step: StepModel) -> bool {
    &&& step.version >= 1
    &&& step.description.len() > 0
}

/// A sequence of steps forms a valid registry.
pub open spec fn registry_wf(steps: Seq<StepModel>) -> bool {
    &&& versions_strictly_increasing(steps)
    &&& forall|i: int| 0 <= i < steps.len() ==> step_wf(#[trigger] steps[i])
}

/// The complete ordered set of migration steps shipped with the application.
///
/// The steps are validated once, at construction; afterwards the registry is
/// immutable, and every value of this type satisfies [`registry_wf`].
#[derive(Debug)]
pub struct Registry {
    steps: Vec<MigrationStep>,
}

impl View for Registry {
    type V = Seq<StepModel>;

    closed spec fn view(&self) -> Seq<StepModel> {
        steps_model(self.steps@)
    }
}

impl Registry {
    /// Every registry that exists is well formed: versions positive and
    /// strictly increasing, descriptions non-empty.
    #[verifier::type_invariant]
    pub open spec fn wf(&self) -> bool {
        registry_wf(self@)
    }

    /// Validates a sequence of steps and seals it into a registry.
    ///
    /// Returns the first definition error found, scanning the steps in
    /// order; succeeds exactly on well-formed sequences.
    pub fn new(steps: Vec<MigrationStep>) -> (r: Result<Registry, RegistryError>)
        ensures
            r is Ok <==> registry_wf(steps_model(steps@)),
            r matches Ok(reg) ==> reg@ == steps_model(steps@) && reg.wf(),
            r matches Err(e) ==> Some(e) == spec_registry_defect(steps_model(steps@)),
    {
        let ghost m = steps_model(steps@);
        let n = steps.len();
        let mut i: usize = 0;
        while i < n
            invariant
                n == steps.len(),
                m == steps_model(steps@),
                0 <= i <= n,
                spec_registry_defect(m) == spec_registry_defect_from(m, i as int),
                forall|k: int, l: int| 0 <= k < l < i ==> #[trigger] m[k].version < #[trigger] m[l].version,
                forall|k: int| 0 <= k < i ==> step_wf(#[trigger] m[k]),
            decreases n - i,
        {
            assert(m[i as int] == steps@[i as int]@);
            if steps[i].version == 0 {
                assert(!step_wf(m[i as int]));
                assert(spec_registry_defect_from(m, i as int) == Some(RegistryError::ZeroVersion));
                return Err(RegistryError::ZeroVersion);
            }
            if steps[i].description.as_str().is_empty() {
                assert(!step_wf(m[i as int]));
                assert(spec_registry_defect_from(m, i as int) == Some(
                    RegistryError::EmptyDescription { version: m[i as int].version },
                ));
                return Err(RegistryError::EmptyDescription { version: steps[i].version });
            }
            if i > 0 && steps[i - 1].version >= steps[i].version {
                proof {
                    let iw = i as int;
                    assert(m[iw - 1] == steps@[iw - 1]@);
                    assert(m[iw - 1].version >= m[iw].version);
                    assert(!versions_strictly_increasing(m));
                    assert(spec_registry_defect_from(m, iw) == Some(
                        RegistryError::VersionConflict {
                            prev: m[iw - 1].version,
                            next: m[iw].version,
                        },
                    ));
                }
                return Err(RegistryError::VersionConflict {
                    prev: steps[i - 1].version,
                    next: steps[i].version,
                });
            }
            proof {
                let iw = i as int;
                if iw > 0 {
                    assert(m[iw - 1] == steps@[iw - 1]@);
                    assert forall|k: int| 0 <= k < iw implies #[trigger] m[k].version < m[iw].version by {
                        if k < iw - 1 {
                            assert(m[k].version < m[iw - 1].version);
                        }
                    }
                }
            }
            i = i + 1;
        }
        let reg = Registry { steps };
        assert(reg@ =~= steps_model(steps@));
        Ok(reg)
    }

    /// The steps, in order.
    pub fn steps(&self) -> (r: &Vec<MigrationStep>)
        ensures
            steps_model(r@) == self@,
    {
        &self.steps
    }

    /// The number of steps.
    pub fn len(&self) -> (r: usize)
        ensures
            r == self@.len(),
    {
        self.steps.len()
    }

    /// The highest version in the registry, or 0 for an empty registry.
    /// Since versions increase strictly, this is the last step's version.
    pub fn max_version(&self) -> (r: u64)
        ensures
            self@.len() == 0 ==> r == 0,
            self@.len() > 0 ==> r == self@.last().version,
            forall|i: int| 0 <= i < self@.len() ==> (#[trigger] self@[i].version) <= r,
    {
        proof {
            use_type_invariant(self);
        }
        if self.steps.len() == 0 {
            0
        } else {
            self.steps[self.steps.len() - 1].version
        }
    }
}


impl Column {
    /// A column declaration.
    pub fn new(
        name: &str,
        ty: ColType,
        primary_key: bool,
        not_null: bool,
        autoincrement: bool,
        default_int: Option<i64>,
    ) -> (c: Column)
        ensures
            c@ == (ColumnModel { name: name@, ty, primary_key, not_null, autoincrement, default_int }),
    {
        Column { name: name.to_owned(), ty, primary_key, not_null, autoincrement, default_int }
    }
}

/// An unconstrained column: no key, no constraint, no default.
pub open spec fn spec_plain_col(name: Seq<char>, ty: ColType) -> ColumnModel {
    ColumnModel { name, ty, primary_key: false, not_null: false, autoincrement: false, default_int: None }
}

/// The columns the notes table is created with.
pub open spec fn spec_notes_columns() -> Seq<ColumnModel> {
    seq![
        ColumnModel {
            name: "id"@,
            ty: ColType::Text,
            primary_key: true,
            not_null: false,
            autoincrement: false,
            default_int: None,
        },
        spec_plain_col("content"@, ColType::Text),
        spec_plain_col("created_at"@, ColType::Integer),
        spec_plain_col("modified_at"@, ColType::Integer),
        spec_plain_col("type"@, ColType::Text),
        spec_plain_col("tags"@, ColType::Text),
        spec_plain_col("properties"@, ColType::Json),
    ]
}

/// The columns the tasks table is created with.
pub open spec fn spec_tasks_columns() -> Seq<ColumnModel> {
    seq![
        ColumnModel {
            name: "id"@,
            ty: ColType::Text,
            primary_key: true,
            not_null: false,
            autoincrement: false,
            default_int: None,
        },
        ColumnModel {
            name: "title"@,
            ty: ColType::Text,
            primary_key: false,
            not_null: true,
            autoincrement: false,
            default_int: None,
        },
        spec_plain_col("notes"@, ColType::Text),
        spec_plain_col("is_done"@, ColType::Integer),
        spec_plain_col("created_at"@, ColType::Integer),
        spec_plain_col("done_at"@, ColType::Integer),
        ColumnModel {
            name: "journal_date"@,
            ty: ColType::Text,
            primary_key: false,
            not_null: true,
            autoincrement: false,
            default_int: None,
        },
        spec_plain_col("tags"@, ColType::Text),
        ColumnModel {
            name: "priority"@,
            ty: ColType::Integer,
            primary_key: false,
            not_null: false,
            autoincrement: false,
            default_int: Some(0),
        },
    ]
}

/// The columns the users table is created with.
pub open spec fn spec_users_columns() -> Seq<ColumnModel> {
    seq![
        ColumnModel {
            name: "id"@,
            ty: ColType::Integer,
            primary_key: true,
            not_null: false,
            autoincrement: true,
            default_int: None,
        },
        ColumnModel {
            name: "name"@,
            ty: ColType::Text,
            primary_key: false,
            not_null: true,
            autoincrement: false,
            default_int: None,
        },
        spec_plain_col("email"@, ColType::Text),
    ]
}

/// The full registry the application ships: the five steps that take an
/// empty store to the current schema.
pub open spec fn spec_registry() -> Seq<StepModel> {
    seq![
        StepModel {
            version: 1,
            description: "create notes table"@,
            statement: StatementModel::CreateTable {
                name: "notes"@,
                columns: spec_notes_columns(),
                if_not_exists: true,
            },
            kind: MigrationKind::Up,
        },
        StepModel {
            version: 2,
            description: "create tasks table"@,
            statement: StatementModel::CreateTable {
                name: "tasks"@,
                columns: spec_tasks_columns(),
                if_not_exists: true,
            },
            kind: MigrationKind::Up,
        },
        StepModel {
            version: 3,
            description: "add path column to notes table"@,
            statement: StatementModel::AddColumn {
                table: "notes"@,
                column: spec_plain_col("path"@, ColType::Text),
            },
            kind: MigrationKind::Up,
        },
        StepModel {
            version: 4,
            description: "create users table"@,
            statement: StatementModel::CreateTable {
                name: "users"@,
                columns: spec_users_columns(),
                if_not_exists: true,
            },
            kind: MigrationKind::Up,
        },
        StepModel {
            version: 5,
            description: "add ai_insights column to notes table"@,
            statement: StatementModel::AddColumn {
                table: "notes"@,
                column: spec_plain_col("ai_insights"@, ColType::Text),
            },
            kind: MigrationKind::Up,
        },
    ]
}

/// The notes table's initial columns.
fn notes_columns() -> (r: Vec<Column>)
    ensures
        cols_model(r@) == spec_notes_columns(),
{
    let mut v: Vec<Column> = Vec::new();
    v.push(Column::new("id", ColType::Text, true, false, false, None));
    v.push(Column::new("content", ColType::Text, false, false, false, None));
    v.push(Column::new("created_at", ColType::Integer, false, false, false, None));
    v.push(Column::new("modified_at", ColType::Integer, false, false, false, None));
    v.push(Column::new("type", ColType::Text, false, false, false, None));
    v.push(Column::new("tags", ColType::Text, false, false, false, None));
    v.push(Column::new("properties", ColType::Json, false, false, false, None));
    assert(cols_model(v@) =~= spec_notes_columns());
    v
}

/// The tasks table's initial columns.
fn tasks_columns() -> (r: Vec<Column>)
    ensures
        cols_model(r@) == spec_tasks_columns(),
{
    let mut v: Vec<Column> = Vec::new();
    v.push(Column::new("id", ColType::Text, true, false, false, None));
    v.push(Column::new("title", ColType::Text, false, true, false, None));
    v.push(Column::new("notes", ColType::Text, false, false, false, None));
    v.push(Column::new("is_done", ColType::Integer, false, false, false, None));
    v.push(Column::new("created_at", ColType::Integer, false, false, false, None));
    v.push(Column::new("done_at", ColType::Integer, false, false, false, None));
    v.push(Column::new("journal_date", ColType::Text, false, true, false, None));
    v.push(Column::new("tags", ColType::Text, false, false, false, None));
    v.push(Column::new("priority", ColType::Integer, false, false, false, Some(0i64)));
    assert(cols_model(v@) =~= spec_tasks_columns());
    v
}

/// The users table's initial columns.
fn users_columns() -> (r: Vec<Column>)
    ensures
        cols_model(r@) == spec_users_columns(),
{
    let mut v: Vec<Column> = Vec::new();
    v.push(Column::new("id", ColType::Integer, true, false, true, None));
    v.push(Column::new("name", ColType::Text, false, true, false, None));
    v.push(Column::new("email", ColType::Text, false, false, false, None));
    assert(cols_model(v@) =~= spec_users_columns());
    v
}

/// Builds the registry the application ships. Pure and deterministic: the
/// result is exactly [`spec_registry`], well formed by construction.
pub fn build() -> (r: Registry)
    ensures
        r@ == spec_registry(),
{
    let mut steps: Vec<MigrationStep> = Vec::new();
    steps.push(
        MigrationStep {
            version: 1,
            description: "create notes table".to_owned(),
            statement: Statement::CreateTable {
                name: "notes".to_owned(),
                columns: notes_columns(),
                if_not_exists: true,
            },
            kind: MigrationKind::Up,
        },
    );
    steps.push(
        MigrationStep {
            version: 2,
            description: "create tasks table".to_owned(),
            statement: Statement::CreateTable {
                name: "tasks".to_owned(),
                columns: tasks_columns(),
                if_not_exists: true,
            },
            kind: MigrationKind::Up,
        },
    );
    steps.push(
        MigrationStep {
            version: 3,
            description: "add path column to notes table".to_owned(),
            statement: Statement::AddColumn {
                table: "notes".to_owned(),
                column: Column::new("path", ColType::Text, false, false, false, None),
            },
            kind: MigrationKind::Up,
        },
    );
    steps.push(
        MigrationStep {
            version: 4,
            description: "create users table".to_owned(),
            statement: Statement::CreateTable {
                name: "users".to_owned(),
                columns: users_columns(),
                if_not_exists: true,
            },
            kind: MigrationKind::Up,
        },
    );
    steps.push(
        MigrationStep {
            version: 5,
            description: "add ai_insights column to notes table".to_owned(),
            statement: Statement::AddColumn {
                table: "notes".to_owned(),
                column: Column::new("ai_insights", ColType::Text, false, false, false, None),
            },
            kind: MigrationKind::Up,
        },
    );
    proof {
        assert(steps_model(steps@) =~= spec_registry());
        lemma_registry_well_formed();
    }
    Registry { steps }
}

/// Law: the shipped registry is well formed — its versions increase
/// strictly along the sequence, so no version is ever reused — and, beyond
/// the shipped one, [`Registry::new`] admits exactly the well-formed
/// sequences, so the same holds of every registry that can be built.
pub proof fn lemma_registry_well_formed()
    ensures
        registry_wf(spec_registry()),
        forall|i: int, j: int|
            0 <= i < j < spec_registry().len() ==> (#[trigger] spec_registry()[i]).version != (
            #[trigger] spec_registry()[j]).version,
{
    reveal_strlit("create notes table");
    reveal_strlit("create tasks table");
    reveal_strlit("add path column to notes table");
    reveal_strlit("create users table");
    reveal_strlit("add ai_insights column to notes table");
    assert(registry_wf(spec_registry()));
}

} // verus!
