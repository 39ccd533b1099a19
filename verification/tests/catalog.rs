use ciam_store::catalog::{Catalog, Column, Index, SchemaChange, Table};

fn column(name: &str) -> Column {
    Column { name: name.to_string(), required: false, references: None }
}

fn reference(name: &str, target: &str) -> Column {
    Column { name: name.to_string(), required: true, references: Some(target.to_string()) }
}

fn table(name: &str, key: &str, columns: Vec<Column>) -> SchemaChange {
    SchemaChange::CreateTable(Table { name: name.to_string(), key: key.to_string(), columns })
}

fn index(name: &str, table: &str, column: &str) -> SchemaChange {
    SchemaChange::CreateIndex(Index {
        name: name.to_string(),
        table: table.to_string(),
        column: column.to_string(),
    })
}

fn catalog_with(script: Vec<SchemaChange>) -> Catalog {
    let mut catalog = Catalog::new();
    assert!(catalog.run(&script));
    catalog
}

#[test]
fn a_new_catalog_is_empty() {
    let catalog = Catalog::new();
    assert_eq!(catalog.table_count(), 0);
    assert_eq!(catalog.index_count(), 0);
    assert!(!catalog.has_table("a"));
    assert!(!catalog.has_index("a"));
    assert!(!catalog.has_column("a", "id"));
}

#[test]
fn a_table_with_a_used_name_is_not_accepted() {
    let catalog = catalog_with(vec![table("a", "id", vec![column("id")])]);
    assert!(!catalog.accepts(&table("a", "id", vec![column("id")])));
    assert!(!catalog.accepts(&table("a", "key", vec![column("key"), column("more")])));
    assert!(catalog.accepts(&table("b", "id", vec![column("id")])));
}

#[test]
fn a_table_needs_its_key_among_its_fields() {
    let catalog = Catalog::new();
    assert!(!catalog.accepts(&table("a", "id", vec![column("value")])));
    assert!(!catalog.accepts(&table("a", "id", vec![])));
    assert!(catalog.accepts(&table("a", "value", vec![column("value")])));
}

#[test]
fn a_table_with_two_fields_of_one_name_is_not_accepted() {
    let catalog = Catalog::new();
    assert!(!catalog.accepts(&table("a", "id", vec![column("id"), column("x"), column("x")])));
    assert!(!catalog.accepts(&table("a", "id", vec![column("id"), column("id")])));
    assert!(catalog.accepts(&table("a", "id", vec![column("id"), column("x"), column("X")])));
}

#[test]
fn a_reference_needs_its_table() {
    let catalog = catalog_with(vec![table("parent", "id", vec![column("id")])]);
    assert!(catalog.accepts(&table("child", "id", vec![column("id"), reference("p", "parent")])));
    assert!(!catalog.accepts(&table("child", "id", vec![column("id"), reference("p", "other")])));
    assert!(catalog.accepts(&table("tree", "id", vec![column("id"), reference("up", "tree")])));
}

#[test]
fn an_index_needs_a_field_to_stand_on() {
    let catalog = catalog_with(vec![table("a", "id", vec![column("id"), column("value")])]);
    assert!(catalog.accepts(&index("a_value", "a", "value")));
    assert!(!catalog.accepts(&index("a_other", "a", "other")));
    assert!(!catalog.accepts(&index("b_value", "b", "value")));
}

#[test]
fn an_index_with_a_used_name_is_not_accepted() {
    let catalog = catalog_with(vec![
        table("a", "id", vec![column("id"), column("value")]),
        index("a_value", "a", "value"),
    ]);
    assert!(!catalog.accepts(&index("a_value", "a", "id")));
    assert!(catalog.accepts(&index("a_id", "a", "id")));
    assert!(catalog.accepts(&index("a_value_again", "a", "value")));
}

#[test]
fn a_script_may_build_on_its_own_earlier_changes() {
    let mut catalog = Catalog::new();
    let script = vec![
        table("parent", "id", vec![column("id")]),
        table("child", "id", vec![column("id"), reference("p", "parent")]),
        index("child_p", "child", "p"),
    ];
    assert!(catalog.run(&script));
    assert_eq!(catalog.table_count(), 2);
    assert_eq!(catalog.index_count(), 1);
    assert_eq!(catalog.table_at(1).name, "child");
    assert_eq!(catalog.index_at(0).column, "p");
    assert!(catalog.has_column("child", "p"));
    assert!(!catalog.has_column("parent", "p"));
}

#[test]
fn a_script_runs_as_a_whole_or_not_at_all() {
    let mut catalog = catalog_with(vec![table("a", "id", vec![column("id")])]);
    let script = vec![
        table("b", "id", vec![column("id")]),
        index("b_id", "b", "id"),
        index("a_id", "a", "id"),
        table("c", "id", vec![column("id"), reference("x", "missing")]),
        table("d", "id", vec![column("id")]),
    ];
    assert!(!catalog.run(&script));
    assert_eq!(catalog.table_count(), 1);
    assert_eq!(catalog.index_count(), 0);
    assert!(catalog.has_table("a"));
    assert!(!catalog.has_table("b"));
    assert!(!catalog.has_index("a_id"));
}

#[test]
fn a_script_in_the_wrong_order_fails() {
    let mut catalog = Catalog::new();
    let script = vec![
        table("child", "id", vec![column("id"), reference("p", "parent")]),
        table("parent", "id", vec![column("id")]),
    ];
    assert!(!catalog.run(&script));
    assert_eq!(catalog.table_count(), 0);
}

#[test]
fn an_empty_script_runs() {
    let mut catalog = Catalog::new();
    assert!(catalog.run(&Vec::new()));
    assert_eq!(catalog.table_count(), 0);
}

#[test]
fn a_table_knows_its_fields() {
    let t = Table {
        name: "a".to_string(),
        key: "id".to_string(),
        columns: vec![column("id"), column("value")],
    };
    assert!(t.has_column("id"));
    assert!(t.has_column("value"));
    assert!(!t.has_column("Value"));
    assert!(!t.has_column(""));
    assert!(t.is_well_formed());
}

#[test]
fn copies_of_changes_equal_the_changes() {
    let t = table("child", "id", vec![column("id"), reference("p", "parent")]);
    let x = index("child_p", "child", "p");
    assert_eq!(t.clone(), t);
    assert_eq!(x.clone(), x);
}
