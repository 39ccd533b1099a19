use ciam_store::catalog::{Column, Index, SchemaChange, Table};
use ciam_store::schema::initial_migrations;
use ciam_store::sql::{render_index, render_script, render_table};

fn column(name: &str, required: bool) -> Column {
    Column { name: name.to_string(), required, references: None }
}

#[test]
fn a_table_is_rendered_with_key_required_fields_and_references() {
    let table = Table {
        name: "well".to_string(),
        key: "id".to_string(),
        columns: vec![
            column("id", true),
            column("uuid", false),
            column("number", true),
            Column {
                name: "workshopId".to_string(),
                required: true,
                references: Some("workshop".to_string()),
            },
        ],
    };
    assert_eq!(
        render_table(&table),
        "CREATE TABLE well (id TEXT PRIMARY KEY, uuid TEXT, number TEXT NOT NULL, \
         workshopId TEXT NOT NULL, FOREIGN KEY (workshopId) REFERENCES workshop);"
    );
}

#[test]
fn a_table_of_one_field_has_no_comma() {
    let table = Table {
        name: "t".to_string(),
        key: "k".to_string(),
        columns: vec![column("k", false)],
    };
    assert_eq!(render_table(&table), "CREATE TABLE t (k TEXT PRIMARY KEY);");
}

#[test]
fn a_table_without_fields_is_rendered_empty() {
    let table = Table { name: "t".to_string(), key: "k".to_string(), columns: vec![] };
    assert_eq!(render_table(&table), "CREATE TABLE t ();");
}

#[test]
fn several_references_follow_the_fields_in_their_order() {
    let table = Table {
        name: "m".to_string(),
        key: "id".to_string(),
        columns: vec![
            column("id", true),
            Column { name: "a".to_string(), required: false, references: Some("x".to_string()) },
            column("v", false),
            Column { name: "b".to_string(), required: false, references: Some("y".to_string()) },
        ],
    };
    assert_eq!(
        render_table(&table),
        "CREATE TABLE m (id TEXT PRIMARY KEY, a TEXT, v TEXT, b TEXT, \
         FOREIGN KEY (a) REFERENCES x, FOREIGN KEY (b) REFERENCES y);"
    );
}

#[test]
fn an_index_is_rendered_on_its_table_and_field() {
    let index = Index {
        name: "idx_measurements_mdt".to_string(),
        table: "measurements".to_string(),
        column: "mdt".to_string(),
    };
    assert_eq!(render_index(&index), "CREATE INDEX idx_measurements_mdt ON measurements(mdt);");
}

#[test]
fn a_script_is_rendered_one_statement_to_a_line() {
    let script = vec![
        SchemaChange::CreateTable(Table {
            name: "t".to_string(),
            key: "k".to_string(),
            columns: vec![column("k", false)],
        }),
        SchemaChange::CreateIndex(Index {
            name: "t_k".to_string(),
            table: "t".to_string(),
            column: "k".to_string(),
        }),
    ];
    assert_eq!(
        render_script(&script),
        "CREATE TABLE t (k TEXT PRIMARY KEY);\nCREATE INDEX t_k ON t(k);\n"
    );
    assert_eq!(render_script(&Vec::new()), "");
}

#[test]
fn the_initial_schema_is_rendered_in_full() {
    let migrations = initial_migrations();
    let expected = "\
CREATE TABLE ngdu (id TEXT PRIMARY KEY, uid TEXT NOT NULL, baseId TEXT NOT NULL, abbrev TEXT NOT NULL, title TEXT NOT NULL);
CREATE TABLE workshop (id TEXT PRIMARY KEY, uuid TEXT, baseId TEXT NOT NULL, abbrev TEXT NOT NULL, title TEXT NOT NULL, extendedTitle TEXT NOT NULL, ngduId TEXT NOT NULL, FOREIGN KEY (ngduId) REFERENCES ngdu);
CREATE TABLE well (id TEXT PRIMARY KEY, uuid TEXT, baseId TEXT NOT NULL, number TEXT NOT NULL, workshopId TEXT NOT NULL, FOREIGN KEY (workshopId) REFERENCES workshop);
CREATE TABLE measurements (id TEXT PRIMARY KEY, creationdtm TEXT NOT NULL, source TEXT, ngdu_id TEXT, mtype TEXT, operator TEXT, bush TEXT, type_hr TEXT, workshop_id TEXT, well_id TEXT, mdt TEXT, meta TEXT, device_meta TEXT, dataArray TEXT, FOREIGN KEY (ngdu_id) REFERENCES ngdu, FOREIGN KEY (workshop_id) REFERENCES workshop, FOREIGN KEY (well_id) REFERENCES well);
CREATE INDEX idx_measurements_ngdu ON measurements(ngdu_id);
CREATE INDEX idx_measurements_workshop ON measurements(workshop_id);
CREATE INDEX idx_measurements_well ON measurements(well_id);
CREATE INDEX idx_measurements_mdt ON measurements(mdt);
CREATE INDEX idx_measurements_type ON measurements(mtype);
";
    assert_eq!(render_script(&migrations[0].script), expected);
}
