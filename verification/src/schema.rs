//! The schema this store is built for, as the list of migrations that
//! creates it.
//!
//! There is one migration so far. It creates the four tables and the five
//! secondary indexes on the measurements. The names are the ones the
//! database file has always used: `ngdu` holds the administrative units,
//! `uid` and `uuid` the external identifiers, `abbrev` the abbreviation,
//! `creationdtm` the creation timestamp, `mtype` the measurement type,
//! `type_hr` its display label and `mdt` the measurement time.

use vstd::prelude::*;
use crate::catalog::{
    Column,
    ColumnView,
    Index,
    IndexView,
    SchemaChange,
    SchemaChangeView,
    Table,
    TableView,
};
use crate::catalog::CatalogView;
use crate::migration::{
    plan_view,
    versions_increase,
    Migration,
    MigrationView,
    Outcome,
    SchemaView,
};

verus! {

/// A field that is no reference.
pub open spec fn plain(name: Seq<char>, required: bool) -> ColumnView {
    ColumnView { name, required, references: None }
}

/// A field that refers to the key of `target`.
pub open spec fn reference(name: Seq<char>, required: bool, target: Seq<char>) -> ColumnView {
    ColumnView { name, required, references: Some(target) }
}

/// The table of administrative units.
pub open spec fn unit_table() -> TableView {
    TableView {
        name: "ngdu"@,
        key: "id"@,
        columns: seq![
            plain("id"@, true),
            plain("uid"@, true),
            plain("baseId"@, true),
            plain("abbrev"@, true),
            plain("title"@, true),
        ],
    }
}

/// The table of workshops.
pub open spec fn workshop_table() -> TableView {
    TableView {
        name: "workshop"@,
        key: "id"@,
        columns: seq![
            plain("id"@, true),
            plain("uuid"@, false),
            plain("baseId"@, true),
            plain("abbrev"@, true),
            plain("title"@, true),
            plain("extendedTitle"@, true),
            reference("ngduId"@, true, "ngdu"@),
        ],
    }
}

/// The table of wells.
pub open spec fn well_table() -> TableView {
    TableView {
        name: "well"@,
        key: "id"@,
        columns: seq![
            plain("id"@, true),
            plain("uuid"@, false),
            plain("baseId"@, true),
            plain("number"@, true),
            reference("workshopId"@, true, "workshop"@),
        ],
    }
}

/// The table of measurements.
pub open spec fn measurement_table() -> TableView {
    TableView {
        name: "measurements"@,
        key: "id"@,
        columns: seq![
            plain("id"@, true),
            plain("creationdtm"@, true),
            plain("source"@, false),
            reference("ngdu_id"@, false, "ngdu"@),
            plain("mtype"@, false),
            plain("operator"@, false),
            plain("bush"@, false),
            plain("type_hr"@, false),
            reference("workshop_id"@, false, "workshop"@),
            reference("well_id"@, false, "well"@),
            plain("mdt"@, false),
            plain("meta"@, false),
            plain("device_meta"@, false),
            plain("dataArray"@, false),
        ],
    }
}

/// An index on one field of the measurements.
pub open spec fn measurement_index(name: Seq<char>, column: Seq<char>) -> IndexView {
    IndexView { name, table: "measurements"@, column }
}

/// The script of the first migration: the four tables, parents first, and
/// then the indexes by unit, workshop, well, time and type.
pub open spec fn initial_script() -> Seq<SchemaChangeView> {
    seq![
        SchemaChangeView::CreateTable(unit_table()),
        SchemaChangeView::CreateTable(workshop_table()),
        SchemaChangeView::CreateTable(well_table()),
        SchemaChangeView::CreateTable(measurement_table()),
        SchemaChangeView::CreateIndex(measurement_index("idx_measurements_ngdu"@, "ngdu_id"@)),
        SchemaChangeView::CreateIndex(
            measurement_index("idx_measurements_workshop"@, "workshop_id"@),
        ),
        SchemaChangeView::CreateIndex(measurement_index("idx_measurements_well"@, "well_id"@)),
        SchemaChangeView::CreateIndex(measurement_index("idx_measurements_mdt"@, "mdt"@)),
        SchemaChangeView::CreateIndex(measurement_index("idx_measurements_type"@, "mtype"@)),
    ]
}

/// The migrations of this store, oldest first.
pub open spec fn initial_plan() -> Seq<MigrationView> {
    seq![
        MigrationView {
            version: 1,
            description: "create_initial_tables"@,
            script: initial_script(),
        },
    ]
}

/// The schema once the migrations of this store have run: version 1, the
/// four tables and the five indexes.
pub open spec fn initial_schema() -> SchemaView {
    SchemaView {
        version: 1,
        catalog: CatalogView {
            tables: seq![unit_table(), workshop_table(), well_table(), measurement_table()],
            indexes: seq![
                measurement_index("idx_measurements_ngdu"@, "ngdu_id"@),
                measurement_index("idx_measurements_workshop"@, "workshop_id"@),
                measurement_index("idx_measurements_well"@, "well_id"@),
                measurement_index("idx_measurements_mdt"@, "mdt"@),
                measurement_index("idx_measurements_type"@, "mtype"@),
            ],
        },
    }
}

proof fn lemma_unit_table_sound()
    ensures
        unit_table().well_formed(),
{
    reveal_strlit("id");
    reveal_strlit("uid");
    reveal_strlit("baseId");
    reveal_strlit("abbrev");
    reveal_strlit("title");
    assert("baseId"@[0] == 'b' && "abbrev"@[0] == 'a');
    let t = unit_table();
    assert(t.columns.len() == 5);
    assert(t.columns[0].name == "id"@);
    assert(t.columns[1].name == "uid"@);
    assert(t.columns[2].name == "baseId"@);
    assert(t.columns[3].name == "abbrev"@);
    assert(t.columns[4].name == "title"@);
    assert(t.has_column(t.key));
    assert forall|i: int, j: int| 0 <= i < j < t.columns.len() implies (
    #[trigger] t.columns[i]).name != (#[trigger] t.columns[j]).name by {
        assert(0 <= i < 5 && 0 < j < 5);
    }
}

proof fn lemma_workshop_table_sound()
    ensures
        workshop_table().well_formed(),
{
    reveal_strlit("id");
    reveal_strlit("uuid");
    reveal_strlit("baseId");
    reveal_strlit("abbrev");
    reveal_strlit("title");
    reveal_strlit("extendedTitle");
    reveal_strlit("ngduId");
    assert("baseId"@[0] == 'b' && "abbrev"@[0] == 'a' && "ngduId"@[0] == 'n');
    let t = workshop_table();
    assert(t.columns.len() == 7);
    assert(t.columns[0].name == "id"@);
    assert(t.columns[1].name == "uuid"@);
    assert(t.columns[2].name == "baseId"@);
    assert(t.columns[3].name == "abbrev"@);
    assert(t.columns[4].name == "title"@);
    assert(t.columns[5].name == "extendedTitle"@);
    assert(t.columns[6].name == "ngduId"@);
    assert(t.has_column(t.key));
    assert forall|i: int, j: int| 0 <= i < j < t.columns.len() implies (
    #[trigger] t.columns[i]).name != (#[trigger] t.columns[j]).name by {
        assert(0 <= i < 7 && 0 < j < 7);
    }
}

proof fn lemma_well_table_sound()
    ensures
        well_table().well_formed(),
{
    reveal_strlit("id");
    reveal_strlit("uuid");
    reveal_strlit("baseId");
    reveal_strlit("number");
    reveal_strlit("workshopId");
    assert("baseId"@[0] == 'b' && "number"@[0] == 'n');
    let t = well_table();
    assert(t.columns.len() == 5);
    assert(t.columns[0].name == "id"@);
    assert(t.columns[1].name == "uuid"@);
    assert(t.columns[2].name == "baseId"@);
    assert(t.columns[3].name == "number"@);
    assert(t.columns[4].name == "workshopId"@);
    assert(t.has_column(t.key));
    assert forall|i: int, j: int| 0 <= i < j < t.columns.len() implies (
    #[trigger] t.columns[i]).name != (#[trigger] t.columns[j]).name by {
        assert(0 <= i < 5 && 0 < j < 5);
    }
}

proof fn lemma_measurement_table_sound()
    ensures
        measurement_table().well_formed(),
{
    reveal_strlit("id");
    reveal_strlit("creationdtm");
    reveal_strlit("source");
    reveal_strlit("ngdu_id");
    reveal_strlit("mtype");
    reveal_strlit("operator");
    reveal_strlit("bush");
    reveal_strlit("type_hr");
    reveal_strlit("workshop_id");
    reveal_strlit("well_id");
    reveal_strlit("mdt");
    reveal_strlit("meta");
    reveal_strlit("device_meta");
    reveal_strlit("dataArray");
    assert("creationdtm"@[0] == 'c' && "workshop_id"@[0] == 'w' && "device_meta"@[0] == 'd');
    assert("ngdu_id"@[0] == 'n' && "type_hr"@[0] == 't' && "well_id"@[0] == 'w');
    assert("bush"@[0] == 'b' && "meta"@[0] == 'm');
    let t = measurement_table();
    assert(t.columns.len() == 14);
    assert(t.columns[0].name == "id"@);
    assert(t.columns[1].name == "creationdtm"@);
    assert(t.columns[2].name == "source"@);
    assert(t.columns[3].name == "ngdu_id"@);
    assert(t.columns[4].name == "mtype"@);
    assert(t.columns[5].name == "operator"@);
    assert(t.columns[6].name == "bush"@);
    assert(t.columns[7].name == "type_hr"@);
    assert(t.columns[8].name == "workshop_id"@);
    assert(t.columns[9].name == "well_id"@);
    assert(t.columns[10].name == "mdt"@);
    assert(t.columns[11].name == "meta"@);
    assert(t.columns[12].name == "device_meta"@);
    assert(t.columns[13].name == "dataArray"@);
    assert(t.has_column(t.key));
    assert forall|i: int, j: int| 0 <= i < j < t.columns.len() implies (
    #[trigger] t.columns[i]).name != (#[trigger] t.columns[j]).name by {
        assert(0 <= i < 14 && 0 < j < 14);
    }
}

proof fn lemma_references_resolve(catalog: CatalogView)
    requires
        catalog.has_table("ngdu"@),
    ensures
        catalog.resolves(unit_table()),
        catalog.resolves(workshop_table()),
        catalog.has_table("workshop"@) ==> catalog.resolves(well_table()),
        catalog.has_table("workshop"@) && catalog.has_table("well"@) ==> catalog.resolves(
            measurement_table(),
        ),
{
    let u = unit_table();
    assert(u.columns.len() == 5);
    assert forall|j: int| 0 <= j < u.columns.len() implies (
    #[trigger] u.columns[j]).references is None by {}
    let w = workshop_table();
    assert(w.columns.len() == 7);
    assert forall|j: int| 0 <= j < w.columns.len() implies match (
    #[trigger] w.columns[j]).references {
        Some(target) => target == "ngdu"@,
        None => true,
    } by {}
    let l = well_table();
    assert(l.columns.len() == 5);
    assert forall|j: int| 0 <= j < l.columns.len() implies match (
    #[trigger] l.columns[j]).references {
        Some(target) => target == "workshop"@,
        None => true,
    } by {}
    let m = measurement_table();
    assert(m.columns.len() == 14);
    assert forall|j: int| 0 <= j < m.columns.len() implies match (
    #[trigger] m.columns[j]).references {
        Some(target) => target == "ngdu"@ || target == "workshop"@ || target == "well"@,
        None => true,
    } by {}
}

/// On a database that has never been initialised the migrations of this
/// store run without a failure and leave the initial schema, which is
/// sound.
pub proof fn lemma_initial_schema()
    ensures
        SchemaView::absent().migrate(initial_plan()) == (Outcome {
            schema: initial_schema(),
            failed: None,
        }),
        initial_schema().wf(),
{
    reveal_strlit("ngdu");
    reveal_strlit("workshop");
    reveal_strlit("well");
    reveal_strlit("measurements");
    reveal_strlit("idx_measurements_ngdu");
    reveal_strlit("idx_measurements_workshop");
    reveal_strlit("idx_measurements_well");
    reveal_strlit("idx_measurements_mdt");
    reveal_strlit("idx_measurements_type");
    assert("ngdu"@.len() == 4 && "workshop"@.len() == 8 && "well"@.len() == 4
        && "measurements"@.len() == 12);
    assert("ngdu"@[0] == 'n' && "well"@[0] == 'w');
    assert("idx_measurements_ngdu"@.len() == 21 && "idx_measurements_workshop"@.len() == 25
        && "idx_measurements_well"@.len() == 21 && "idx_measurements_mdt"@.len() == 20
        && "idx_measurements_type"@.len() == 21);
    assert("idx_measurements_ngdu"@[17] == 'n' && "idx_measurements_well"@[17] == 'w'
        && "idx_measurements_type"@[17] == 't');
    lemma_unit_table_sound();
    lemma_workshop_table_sound();
    lemma_well_table_sound();
    lemma_measurement_table_sound();
    let s = initial_script();
    let x0 = measurement_index("idx_measurements_ngdu"@, "ngdu_id"@);
    let x1 = measurement_index("idx_measurements_workshop"@, "workshop_id"@);
    let x2 = measurement_index("idx_measurements_well"@, "well_id"@);
    let x3 = measurement_index("idx_measurements_mdt"@, "mdt"@);
    let x4 = measurement_index("idx_measurements_type"@, "mtype"@);
    assert(s.len() == 9);
    assert(s[0] == SchemaChangeView::CreateTable(unit_table()));
    assert(s[1] == SchemaChangeView::CreateTable(workshop_table()));
    assert(s[2] == SchemaChangeView::CreateTable(well_table()));
    assert(s[3] == SchemaChangeView::CreateTable(measurement_table()));
    assert(s[4] == SchemaChangeView::CreateIndex(x0));
    assert(s[5] == SchemaChangeView::CreateIndex(x1));
    assert(s[6] == SchemaChangeView::CreateIndex(x2));
    assert(s[7] == SchemaChangeView::CreateIndex(x3));
    assert(s[8] == SchemaChangeView::CreateIndex(x4));

    let c0 = CatalogView::empty();
    assert(c0.resolves(unit_table())) by {
        let u = unit_table();
        assert(u.columns.len() == 5);
        assert forall|j: int| 0 <= j < u.columns.len() implies (
        #[trigger] u.columns[j]).references is None by {}
    }
    assert(c0.accepts(s[0]));
    let c1 = c0.apply(s[0]);
    c0.lemma_apply_wf(s[0]);
    assert(c1.tables.len() == 1 && c1.tables[0] == unit_table());
    assert(c1.has_table("ngdu"@));
    lemma_references_resolve(c1);
    assert(!c1.has_table("workshop"@)) by {
        assert forall|i: int| 0 <= i < c1.tables.len() implies (#[trigger] c1.tables[i]).name
            != "workshop"@ by {
            assert(0 <= i < 1);
        }
    }
    assert(c1.accepts(s[1]));

    let c2 = c1.apply(s[1]);
    c1.lemma_apply_wf(s[1]);
    assert(c2.tables.len() == 2 && c2.tables[0] == unit_table() && c2.tables[1]
        == workshop_table());
    assert(c2.has_table("ngdu"@));
    assert(c2.has_table("workshop"@));
    lemma_references_resolve(c2);
    assert(!c2.has_table("well"@)) by {
        assert forall|i: int| 0 <= i < c2.tables.len() implies (#[trigger] c2.tables[i]).name
            != "well"@ by {
            assert(0 <= i < 2);
        }
    }
    assert(c2.accepts(s[2]));

    let c3 = c2.apply(s[2]);
    c2.lemma_apply_wf(s[2]);
    assert(c3.tables.len() == 3 && c3.tables[0] == unit_table() && c3.tables[1]
        == workshop_table() && c3.tables[2] == well_table());
    assert(c3.has_table("ngdu"@));
    assert(c3.has_table("workshop"@));
    assert(c3.has_table("well"@));
    lemma_references_resolve(c3);
    assert(!c3.has_table("measurements"@)) by {
        assert forall|i: int| 0 <= i < c3.tables.len() implies (#[trigger] c3.tables[i]).name
            != "measurements"@ by {
            assert(0 <= i < 3);
        }
    }
    assert(c3.accepts(s[3]));

    let c4 = c3.apply(s[3]);
    c3.lemma_apply_wf(s[3]);
    let m = measurement_table();
    assert(c4.tables[3] == m);
    assert(m.columns[3].name == "ngdu_id"@ && m.has_column("ngdu_id"@));
    assert(m.columns[8].name == "workshop_id"@ && m.has_column("workshop_id"@));
    assert(m.columns[9].name == "well_id"@ && m.has_column("well_id"@));
    assert(m.columns[10].name == "mdt"@ && m.has_column("mdt"@));
    assert(m.columns[4].name == "mtype"@ && m.has_column("mtype"@));
    assert(c4.has_column("measurements"@, "ngdu_id"@));
    assert(c4.has_column("measurements"@, "workshop_id"@));
    assert(c4.has_column("measurements"@, "well_id"@));
    assert(c4.has_column("measurements"@, "mdt"@));
    assert(c4.has_column("measurements"@, "mtype"@));
    assert(c4.indexes.len() == 0);
    assert(c4.accepts(s[4]));

    let c5 = c4.apply(s[4]);
    c4.lemma_apply_wf(s[4]);
    assert(c5.tables == c4.tables);
    assert(c5.indexes.len() == 1 && c5.indexes[0] == x0);
    assert(c5.has_column("measurements"@, "workshop_id"@));
    assert(!c5.has_index("idx_measurements_workshop"@)) by {
        assert forall|i: int| 0 <= i < c5.indexes.len() implies (#[trigger] c5.indexes[i]).name
            != "idx_measurements_workshop"@ by {
            assert(0 <= i < 1);
        }
    }
    assert(c5.accepts(s[5]));

    let c6 = c5.apply(s[5]);
    c5.lemma_apply_wf(s[5]);
    assert(c6.tables == c4.tables);
    assert(c6.indexes.len() == 2 && c6.indexes[0] == x0 && c6.indexes[1] == x1);
    assert(c6.has_column("measurements"@, "well_id"@));
    assert(!c6.has_index("idx_measurements_well"@)) by {
        assert forall|i: int| 0 <= i < c6.indexes.len() implies (#[trigger] c6.indexes[i]).name
            != "idx_measurements_well"@ by {
            assert(0 <= i < 2);
        }
    }
    assert(c6.accepts(s[6]));

    let c7 = c6.apply(s[6]);
    c6.lemma_apply_wf(s[6]);
    assert(c7.tables == c4.tables);
    assert(c7.indexes.len() == 3 && c7.indexes[0] == x0 && c7.indexes[1] == x1 && c7.indexes[2]
        == x2);
    assert(c7.has_column("measurements"@, "mdt"@));
    assert(!c7.has_index("idx_measurements_mdt"@)) by {
        assert forall|i: int| 0 <= i < c7.indexes.len() implies (#[trigger] c7.indexes[i]).name
            != "idx_measurements_mdt"@ by {
            assert(0 <= i < 3);
        }
    }
    assert(c7.accepts(s[7]));

    let c8 = c7.apply(s[7]);
    c7.lemma_apply_wf(s[7]);
    assert(c8.tables == c4.tables);
    assert(c8.indexes.len() == 4 && c8.indexes[0] == x0 && c8.indexes[1] == x1 && c8.indexes[2]
        == x2 && c8.indexes[3] == x3);
    assert(c8.has_column("measurements"@, "mtype"@));
    assert(!c8.has_index("idx_measurements_type"@)) by {
        assert forall|i: int| 0 <= i < c8.indexes.len() implies (#[trigger] c8.indexes[i]).name
            != "idx_measurements_type"@ by {
            assert(0 <= i < 4);
        }
    }
    assert(c8.accepts(s[8]));

    let c9 = c8.apply(s[8]);
    c8.lemma_apply_wf(s[8]);
    assert(c9.run_from(s, 9) == Some(c9));
    assert(c8.run_from(s, 8) == Some(c9));
    assert(c7.run_from(s, 7) == Some(c9));
    assert(c6.run_from(s, 6) == Some(c9));
    assert(c5.run_from(s, 5) == Some(c9));
    assert(c4.run_from(s, 4) == Some(c9));
    assert(c3.run_from(s, 3) == Some(c9));
    assert(c2.run_from(s, 2) == Some(c9));
    assert(c1.run_from(s, 1) == Some(c9));
    assert(c0.run_from(s, 0) == Some(c9));
    assert(c9.tables =~= initial_schema().catalog.tables);
    assert(c9.indexes =~= initial_schema().catalog.indexes);
    let plan = initial_plan();
    let absent = SchemaView::absent();
    assert(absent.step(plan[0]) == Some(initial_schema()));
    assert(initial_schema().migrate_from(plan, 1) == (Outcome {
        schema: initial_schema(),
        failed: None,
    }));
}

fn plain_column(name: &str, required: bool) -> (c: Column)
    ensures
        c@ == plain(name@, required),
{
    Column { name: name.to_owned(), required, references: None }
}

fn reference_column(name: &str, required: bool, target: &str) -> (c: Column)
    ensures
        c@ == reference(name@, required, target@),
{
    Column { name: name.to_owned(), required, references: Some(target.to_owned()) }
}

fn table(name: &str, columns: Vec<Column>) -> (t: Table)
    ensures
        t@ == (TableView {
            name: name@,
            key: "id"@,
            columns: columns@.map_values(|c: Column| c@),
        }),
{
    Table { name: name.to_owned(), key: "id".to_owned(), columns }
}

fn index_on_measurements(name: &str, column: &str) -> (change: SchemaChange)
    ensures
        change@ == SchemaChangeView::CreateIndex(measurement_index(name@, column@)),
{
    SchemaChange::CreateIndex(
        Index { name: name.to_owned(), table: "measurements".to_owned(), column: column.to_owned() },
    )
}

fn create_unit_table() -> (change: SchemaChange)
    ensures
        change@ == SchemaChangeView::CreateTable(unit_table()),
{
    let mut columns: Vec<Column> = Vec::new();
    columns.push(plain_column("id", true));
    columns.push(plain_column("uid", true));
    columns.push(plain_column("baseId", true));
    columns.push(plain_column("abbrev", true));
    columns.push(plain_column("title", true));
    let t = table("ngdu", columns);
    assert(t@.columns =~= unit_table().columns);
    SchemaChange::CreateTable(t)
}

fn create_workshop_table() -> (change: SchemaChange)
    ensures
        change@ == SchemaChangeView::CreateTable(workshop_table()),
{
    let mut columns: Vec<Column> = Vec::new();
    columns.push(plain_column("id", true));
    columns.push(plain_column("uuid", false));
    columns.push(plain_column("baseId", true));
    columns.push(plain_column("abbrev", true));
    columns.push(plain_column("title", true));
    columns.push(plain_column("extendedTitle", true));
    columns.push(reference_column("ngduId", true, "ngdu"));
    let t = table("workshop", columns);
    assert(t@.columns =~= workshop_table().columns);
    SchemaChange::CreateTable(t)
}

fn create_well_table() -> (change: SchemaChange)
    ensures
        change@ == SchemaChangeView::CreateTable(well_table()),
{
    let mut columns: Vec<Column> = Vec::new();
    columns.push(plain_column("id", true));
    columns.push(plain_column("uuid", false));
    columns.push(plain_column("baseId", true));
    columns.push(plain_column("number", true));
    columns.push(reference_column("workshopId", true, "workshop"));
    let t = table("well", columns);
    assert(t@.columns =~= well_table().columns);
    SchemaChange::CreateTable(t)
}

fn create_measurement_table() -> (change: SchemaChange)
    ensures
        change@ == SchemaChangeView::CreateTable(measurement_table()),
{
    let mut columns: Vec<Column> = Vec::new();
    columns.push(plain_column("id", true));
    columns.push(plain_column("creationdtm", true));
    columns.push(plain_column("source", false));
    columns.push(reference_column("ngdu_id", false, "ngdu"));
    columns.push(plain_column("mtype", false));
    columns.push(plain_column("operator", false));
    columns.push(plain_column("bush", false));
    columns.push(plain_column("type_hr", false));
    columns.push(reference_column("workshop_id", false, "workshop"));
    columns.push(reference_column("well_id", false, "well"));
    columns.push(plain_column("mdt", false));
    columns.push(plain_column("meta", false));
    columns.push(plain_column("device_meta", false));
    columns.push(plain_column("dataArray", false));
    let t = table("measurements", columns);
    assert(t@.columns =~= measurement_table().columns);
    SchemaChange::CreateTable(t)
}

/// The migrations of this store, oldest first.
pub fn initial_migrations() -> (migrations: Vec<Migration>)
    ensures
        plan_view(migrations@) == initial_plan(),
        versions_increase(plan_view(migrations@)),
{
    let mut script: Vec<SchemaChange> = Vec::new();
    script.push(create_unit_table());
    script.push(create_workshop_table());
    script.push(create_well_table());
    script.push(create_measurement_table());
    script.push(index_on_measurements("idx_measurements_ngdu", "ngdu_id"));
    script.push(index_on_measurements("idx_measurements_workshop", "workshop_id"));
    script.push(index_on_measurements("idx_measurements_well", "well_id"));
    script.push(index_on_measurements("idx_measurements_mdt", "mdt"));
    script.push(index_on_measurements("idx_measurements_type", "mtype"));
    let first = Migration {
        version: 1,
        description: "create_initial_tables".to_owned(),
        script,
    };
    assert(first@.script =~= initial_script());
    let mut migrations: Vec<Migration> = Vec::new();
    migrations.push(first);
    assert(plan_view(migrations@) =~= initial_plan());
    migrations
}

} // verus!
