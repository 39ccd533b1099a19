//! The migration engine: brings the schema of a database from "absent" or
//! "partly current" to the newest version, each migration once, in order.

use vstd::prelude::*;
use crate::catalog::{Catalog, CatalogView, SchemaChange, SchemaChangeView, script_view};
use crate::error::{StoreError, StoreErrorView};

verus! {

/// One versioned, forward-only schema change.
#[derive(Debug, PartialEq, Eq)]
pub struct Migration {
    pub version: u64,
    pub description: String,
    pub script: Vec<SchemaChange>,
}

pub struct MigrationView {
    pub version: u64,
    pub description: Seq<char>,
    pub script: Seq<SchemaChangeView>,
}

impl View for Migration {
    type V = MigrationView;

    open spec fn view(&self) -> MigrationView {
        MigrationView {
            version: self.version,
            description: self.description@,
            script: script_view(self.script@),
        }
    }
}

/// The views of a list of migrations, in order.
pub open spec fn plan_view(migrations: Seq<Migration>) -> Seq<MigrationView> {
    migrations.map_values(|m: Migration| m@)
}

/// Each migration of the list has a greater version than those before it.
pub open spec fn versions_increase(plan: Seq<MigrationView>) -> bool {
    forall|i: int, j: int|
        0 <= i < j < plan.len() ==> (#[trigger] plan[i]).version < (#[trigger] plan[j]).version
}

/// What a database remembers of its schema: the version counter and the
/// catalog. The counter is 0 while the database has never been initialised.
pub struct SchemaView {
    pub version: u64,
    pub catalog: CatalogView,
}

/// How a run of the engine ended: the schema it left, and the version of
/// the migration that failed, if one did.
pub struct Outcome {
    pub schema: SchemaView,
    pub failed: Option<u64>,
}

impl SchemaView {
    /// The schema of a database that has never been initialised.
    pub open spec fn absent() -> SchemaView {
        SchemaView { version: 0, catalog: CatalogView::empty() }
    }

    pub open spec fn wf(self) -> bool {
        self.catalog.wf()
    }

    /// One migration against this schema. A migration that is not newer
    /// than the schema is skipped. A newer one runs its script as a whole
    /// and sets the counter to its version; if the script cannot run, the
    /// answer is `None` and nothing has changed.
    pub open spec fn step(self, migration: MigrationView) -> Option<SchemaView> {
        if migration.version <= self.version {
            Some(self)
        } else {
            match self.catalog.run(migration.script) {
                Some(catalog) => Some(SchemaView { version: migration.version, catalog }),
                None => None,
            }
        }
    }

    /// The engine on the migrations of `plan` from position `from` on. It
    /// stops at the first migration that fails and leaves the schema as the
    /// migrations before that one left it.
    pub open spec fn migrate_from(self, plan: Seq<MigrationView>, from: int) -> Outcome
        decreases plan.len() - from,
    {
        if from < 0 || from >= plan.len() {
            Outcome { schema: self, failed: None }
        } else {
            match self.step(plan[from]) {
                Some(next) => next.migrate_from(plan, from + 1),
                None => Outcome { schema: self, failed: Some(plan[from].version) },
            }
        }
    }

    /// The engine on a whole plan.
    pub open spec fn migrate(self, plan: Seq<MigrationView>) -> Outcome {
        self.migrate_from(plan, 0)
    }
}

/// A run that did not fail leaves a version that is no older than the one
/// it started from nor than any migration it was given.
pub proof fn lemma_migrate_reaches(schema: SchemaView, plan: Seq<MigrationView>, from: int)
    requires
        0 <= from,
        schema.migrate_from(plan, from).failed is None,
    ensures
        schema.version <= schema.migrate_from(plan, from).schema.version,
        forall|j: int|
            from <= j < plan.len() ==> (#[trigger] plan[j]).version <= schema.migrate_from(
                plan,
                from,
            ).schema.version,
    decreases plan.len() - from,
{
    if from < plan.len() {
        let next = schema.step(plan[from])->Some_0;
        lemma_migrate_reaches(next, plan, from + 1);
    }
}

/// Against a schema that is no older than any of them, migrations change
/// nothing and none fails.
pub proof fn lemma_migrate_skips(schema: SchemaView, plan: Seq<MigrationView>, from: int)
    requires
        0 <= from,
        forall|j: int| from <= j < plan.len() ==> (#[trigger] plan[j]).version <= schema.version,
    ensures
        schema.migrate_from(plan, from) == (Outcome { schema, failed: None }),
    decreases plan.len() - from,
{
    if from < plan.len() {
        assert(plan[from].version <= schema.version);
        lemma_migrate_skips(schema, plan, from + 1);
    }
}

/// The engine leaves a sound schema sound, whether or not a migration
/// failed.
pub proof fn lemma_migrate_wf(schema: SchemaView, plan: Seq<MigrationView>, from: int)
    requires
        schema.wf(),
        0 <= from,
    ensures
        schema.migrate_from(plan, from).schema.wf(),
    decreases plan.len() - from,
{
    if from < plan.len() {
        match schema.step(plan[from]) {
            Some(next) => {
                if plan[from].version > schema.version {
                    schema.catalog.lemma_run_wf(plan[from].script, 0);
                }
                lemma_migrate_wf(next, plan, from + 1);
            },
            None => {},
        }
    }
}

/// The engine never turns the version counter back.
pub proof fn lemma_migrate_advances(schema: SchemaView, plan: Seq<MigrationView>, from: int)
    requires
        0 <= from,
    ensures
        schema.version <= schema.migrate_from(plan, from).schema.version,
    decreases plan.len() - from,
{
    if from < plan.len() {
        match schema.step(plan[from]) {
            Some(next) => {
                lemma_migrate_advances(next, plan, from + 1);
            },
            None => {},
        }
    }
}

proof fn lemma_migrate_again_from(schema: SchemaView, plan: Seq<MigrationView>, from: int)
    requires
        0 <= from,
    ensures
        schema.migrate_from(plan, from).schema.migrate_from(plan, from) == schema.migrate_from(
            plan,
            from,
        ),
    decreases plan.len() - from,
{
    if from < plan.len() {
        match schema.step(plan[from]) {
            Some(next) => {
                let left = next.migrate_from(plan, from + 1).schema;
                lemma_migrate_again_from(next, plan, from + 1);
                lemma_migrate_advances(next, plan, from + 1);
                assert(left.step(plan[from]) == Some(left));
            },
            None => {},
        }
    }
}

/// Running the engine again with the same migrations is a no-op. After a
/// run without a failure the second run fails nowhere and leaves version
/// and catalog as they are; after a failure the second run fails at the
/// same migration and leaves what the first run left.
pub proof fn lemma_migrate_idempotent(schema: SchemaView, plan: Seq<MigrationView>)
    ensures
        schema.migrate(plan).schema.migrate(plan) == schema.migrate(plan),
{
    lemma_migrate_again_from(schema, plan, 0);
}

/// With increasing versions, a run that did not fail leaves the version of
/// the last migration, or the version it started from if that is newer.
pub proof fn lemma_migrate_version(schema: SchemaView, plan: Seq<MigrationView>)
    requires
        versions_increase(plan),
        plan.len() > 0,
        schema.migrate(plan).failed is None,
    ensures
        schema.migrate(plan).schema.version == if schema.version <= plan.last().version {
            plan.last().version
        } else {
            schema.version
        },
{
    lemma_migrate_version_from(schema, plan, 0);
}

proof fn lemma_migrate_version_from(schema: SchemaView, plan: Seq<MigrationView>, from: int)
    requires
        versions_increase(plan),
        0 <= from < plan.len(),
        schema.migrate_from(plan, from).failed is None,
    ensures
        schema.migrate_from(plan, from).schema.version == if schema.version
            <= plan.last().version {
            plan.last().version
        } else {
            schema.version
        },
    decreases plan.len() - from,
{
    let next = schema.step(plan[from])->Some_0;
    if from + 1 < plan.len() {
        lemma_migrate_version_from(next, plan, from + 1);
        assert(plan[from].version < plan.last().version);
    } else {
        assert(plan[from] == plan.last());
        assert(next.migrate_from(plan, from + 1) == (Outcome { schema: next, failed: None }));
    }
}

/// Decides whether the versions of a list of migrations increase.
pub fn is_ordered(migrations: &Vec<Migration>) -> (r: bool)
    ensures
        r == versions_increase(plan_view(migrations@)),
{
    let ghost plan = plan_view(migrations@);
    let mut k: usize = 1;
    while k < migrations.len()
        invariant
            1 <= k,
            plan == plan_view(migrations@),
            forall|i: int, j: int|
                0 <= i < j < k && j < plan.len() ==> (#[trigger] plan[i]).version < (
                #[trigger] plan[j]).version,
        decreases migrations.len() - k,
    {
        if migrations[k - 1].version >= migrations[k].version {
            assert(!(plan[k - 1].version < plan[k as int].version));
            return false;
        }
        assert forall|i: int, j: int| 0 <= i < j < k + 1 && j < plan.len() implies (
        #[trigger] plan[i]).version < (#[trigger] plan[j]).version by {
            if j == k {
                if i < k - 1 {
                    assert(plan[i].version < plan[k - 1].version);
                }
            }
        }
        k += 1;
    }
    true
}

/// The schema of one database: its version counter and its catalog.
#[derive(Debug)]
pub struct Schema {
    version: u64,
    catalog: Catalog,
}

impl View for Schema {
    type V = SchemaView;

    closed spec fn view(&self) -> SchemaView {
        SchemaView { version: self.version, catalog: self.catalog@ }
    }
}

impl Schema {
    pub open spec fn wf(&self) -> bool {
        self@.wf()
    }

    /// The schema of a database that has never been initialised.
    pub fn absent() -> (s: Schema)
        ensures
            s@ == SchemaView::absent(),
            s.wf(),
    {
        Schema { version: 0, catalog: Catalog::new() }
    }

    /// The version counter.
    pub fn version(&self) -> (v: u64)
        ensures
            v == self@.version,
    {
        self.version
    }

    /// The catalog.
    pub fn catalog(&self) -> (c: &Catalog)
        ensures
            c@ == self@.catalog,
    {
        &self.catalog
    }

    /// Applies the migrations that are newer than the schema, in order, each
    /// as a whole, and answers the version the schema then has. A migration
    /// whose script cannot run ends the run with `MigrationFailure`; the
    /// schema is then as the migrations before it left it.
    pub fn apply(&mut self, migrations: &Vec<Migration>) -> (r: Result<u64, StoreError>)
        requires
            old(self).wf(),
            versions_increase(plan_view(migrations@)),
        ensures
            final(self).wf(),
            final(self)@ == old(self)@.migrate(plan_view(migrations@)).schema,
            match old(self)@.migrate(plan_view(migrations@)).failed {
                None => r == Ok::<u64, StoreError>(final(self)@.version),
                Some(version) => r is Err && r->Err_0@ == (StoreErrorView::MigrationFailure {
                    version,
                }),
            },
    {
        let ghost plan = plan_view(migrations@);
        let mut k: usize = 0;
        while k < migrations.len()
            invariant
                k <= migrations.len(),
                plan == plan_view(migrations@),
                self.wf(),
                old(self)@.migrate(plan) == self@.migrate_from(plan, k as int),
            decreases migrations.len() - k,
        {
            let migration = &migrations[k];
            assert(plan[k as int] == migration@);
            if migration.version > self.version {
                if self.catalog.run(&migration.script) {
                    self.version = migration.version;
                } else {
                    return Err(StoreError::MigrationFailure { version: migration.version });
                }
            }
            k += 1;
        }
        Ok(self.version)
    }
}

} // verus!
