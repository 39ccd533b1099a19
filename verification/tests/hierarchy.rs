use ciam_store::error::StoreError;
use ciam_store::records::{AdministrativeUnit, HierarchyNode, NodeKind, Well, Workshop};
use ciam_store::store::Store;

fn unit(id: &str) -> AdministrativeUnit {
    AdministrativeUnit {
        id: id.to_string(),
        external_id: format!("ext-{}", id),
        base_id: "B".to_string(),
        abbreviation: "NG".to_string(),
        title: format!("Unit {}", id),
    }
}

fn workshop(id: &str, unit_id: &str) -> Workshop {
    Workshop {
        id: id.to_string(),
        external_id: None,
        base_id: "B".to_string(),
        abbreviation: "WS".to_string(),
        title: format!("Shop {}", id),
        extended_title: format!("Workshop {}", id),
        administrative_unit_id: unit_id.to_string(),
    }
}

fn well(id: &str, workshop_id: &str) -> Well {
    Well {
        id: id.to_string(),
        external_id: Some(format!("ext-{}", id)),
        base_id: "B".to_string(),
        number: "101".to_string(),
        workshop_id: workshop_id.to_string(),
    }
}

#[test]
fn workshop_after_its_unit_is_accepted() {
    let mut store = Store::create();
    assert_eq!(store.insert_administrative_unit(unit("A1")), Ok(()));
    assert_eq!(store.insert_workshop(workshop("W1", "A1")), Ok(()));
    assert_eq!(store.workshop_count(), 1);
    assert_eq!(store.find_workshop("W1"), Some(&workshop("W1", "A1")));
}

#[test]
fn workshop_before_its_unit_is_dangling() {
    let mut store = Store::create();
    assert_eq!(
        store.insert_workshop(workshop("W1", "A1")),
        Err(StoreError::DanglingReference {
            kind: NodeKind::AdministrativeUnit,
            id: "A1".to_string()
        })
    );
    assert_eq!(store.workshop_count(), 0);
    assert_eq!(store.find_workshop("W1"), None);
    assert_eq!(store.insert_administrative_unit(unit("A1")), Ok(()));
    assert_eq!(store.insert_workshop(workshop("W1", "A1")), Ok(()));
}

#[test]
fn well_before_its_workshop_is_dangling() {
    let mut store = Store::create();
    store.insert_administrative_unit(unit("A1")).unwrap();
    assert_eq!(
        store.insert_well(well("WL1", "W1")),
        Err(StoreError::DanglingReference { kind: NodeKind::Workshop, id: "W1".to_string() })
    );
    assert_eq!(store.well_count(), 0);
    store.insert_workshop(workshop("W1", "A1")).unwrap();
    assert_eq!(store.insert_well(well("WL1", "W1")), Ok(()));
    assert_eq!(store.find_well("WL1"), Some(&well("WL1", "W1")));
}

#[test]
fn a_well_does_not_resolve_against_a_unit_of_the_same_identity() {
    let mut store = Store::create();
    store.insert_administrative_unit(unit("X")).unwrap();
    assert_eq!(
        store.insert_well(well("WL1", "X")),
        Err(StoreError::DanglingReference { kind: NodeKind::Workshop, id: "X".to_string() })
    );
}

#[test]
fn duplicate_unit_is_refused_and_the_first_is_kept() {
    let mut store = Store::create();
    store.insert_administrative_unit(unit("A1")).unwrap();
    let mut other = unit("A1");
    other.title = "Another".to_string();
    assert_eq!(
        store.insert_administrative_unit(other),
        Err(StoreError::DuplicateIdentity {
            kind: NodeKind::AdministrativeUnit,
            id: "A1".to_string()
        })
    );
    assert_eq!(store.administrative_unit_count(), 1);
    assert_eq!(store.find_administrative_unit("A1"), Some(&unit("A1")));
}

#[test]
fn duplicate_workshop_is_refused() {
    let mut store = Store::create();
    store.insert_administrative_unit(unit("A1")).unwrap();
    store.insert_administrative_unit(unit("A2")).unwrap();
    store.insert_workshop(workshop("W1", "A1")).unwrap();
    assert_eq!(
        store.insert_workshop(workshop("W1", "A2")),
        Err(StoreError::DuplicateIdentity { kind: NodeKind::Workshop, id: "W1".to_string() })
    );
    assert_eq!(store.workshop_count(), 1);
    assert_eq!(store.find_workshop("W1"), Some(&workshop("W1", "A1")));
}

#[test]
fn duplicate_well_is_refused() {
    let mut store = Store::create();
    store.insert_administrative_unit(unit("A1")).unwrap();
    store.insert_workshop(workshop("W1", "A1")).unwrap();
    store.insert_well(well("WL1", "W1")).unwrap();
    assert_eq!(
        store.insert_well(well("WL1", "W1")),
        Err(StoreError::DuplicateIdentity { kind: NodeKind::Well, id: "WL1".to_string() })
    );
    assert_eq!(store.well_count(), 1);
}

#[test]
fn a_missing_parent_is_reported_before_a_taken_identity() {
    let mut store = Store::create();
    store.insert_administrative_unit(unit("A1")).unwrap();
    store.insert_workshop(workshop("W1", "A1")).unwrap();
    assert_eq!(
        store.insert_workshop(workshop("W1", "A9")),
        Err(StoreError::DanglingReference {
            kind: NodeKind::AdministrativeUnit,
            id: "A9".to_string()
        })
    );
}

#[test]
fn the_same_identity_may_be_used_in_different_tables() {
    let mut store = Store::create();
    store.insert_administrative_unit(unit("X")).unwrap();
    store.insert_workshop(workshop("X", "X")).unwrap();
    store.insert_well(well("X", "X")).unwrap();
    assert_eq!(store.administrative_unit_count(), 1);
    assert_eq!(store.workshop_count(), 1);
    assert_eq!(store.well_count(), 1);
}

#[test]
fn well_numbers_need_not_be_unique() {
    let mut store = Store::create();
    store.insert_administrative_unit(unit("A1")).unwrap();
    store.insert_workshop(workshop("W1", "A1")).unwrap();
    store.insert_well(well("WL1", "W1")).unwrap();
    assert_eq!(store.insert_well(well("WL2", "W1")), Ok(()));
    assert_eq!(store.find_well("WL1").unwrap().number, store.find_well("WL2").unwrap().number);
}

#[test]
fn lookups_of_absent_nodes_answer_none() {
    let mut store = Store::create();
    assert_eq!(store.find_administrative_unit("A1"), None);
    assert_eq!(store.find_workshop("W1"), None);
    assert_eq!(store.find_well("WL1"), None);
    assert_eq!(store.find_administrative_unit(""), None);
    store.insert_administrative_unit(unit("A1")).unwrap();
    assert_eq!(store.find_administrative_unit("A"), None);
    assert_eq!(store.find_administrative_unit("A1 "), None);
    assert_eq!(store.find_administrative_unit("a1"), None);
}

#[test]
fn has_node_tells_the_kinds_apart() {
    let mut store = Store::create();
    store.insert_administrative_unit(unit("A1")).unwrap();
    store.insert_workshop(workshop("W1", "A1")).unwrap();
    assert!(store.has_node(NodeKind::AdministrativeUnit, "A1"));
    assert!(!store.has_node(NodeKind::Workshop, "A1"));
    assert!(store.has_node(NodeKind::Workshop, "W1"));
    assert!(!store.has_node(NodeKind::Well, "W1"));
}

#[test]
fn nodes_of_any_kind_are_ingested_through_one_door() {
    let mut store = Store::create();
    assert_eq!(
        store.ingest_hierarchy_node(HierarchyNode::Well(well("WL1", "W1"))),
        Err(StoreError::DanglingReference { kind: NodeKind::Workshop, id: "W1".to_string() })
    );
    assert_eq!(
        store.ingest_hierarchy_node(HierarchyNode::AdministrativeUnit(unit("A1"))),
        Ok(())
    );
    assert_eq!(store.ingest_hierarchy_node(HierarchyNode::Workshop(workshop("W1", "A1"))), Ok(()));
    assert_eq!(store.ingest_hierarchy_node(HierarchyNode::Well(well("WL1", "W1"))), Ok(()));
    assert_eq!(
        store.ingest_hierarchy_node(HierarchyNode::AdministrativeUnit(unit("A1"))),
        Err(StoreError::DuplicateIdentity {
            kind: NodeKind::AdministrativeUnit,
            id: "A1".to_string()
        })
    );
    assert_eq!(store.well_count(), 1);
}

#[test]
fn a_copy_of_a_node_equals_the_node() {
    let a = unit("A1");
    let w = workshop("W1", "A1");
    let l = well("WL1", "W1");
    assert_eq!(a.clone(), a);
    assert_eq!(w.clone(), w);
    assert_eq!(l.clone(), l);
}

#[test]
fn non_ascii_identities_are_kept_apart() {
    let mut store = Store::create();
    store.insert_administrative_unit(unit("НГДУ-1")).unwrap();
    store.insert_administrative_unit(unit("НГДУ-2")).unwrap();
    assert_eq!(store.administrative_unit_count(), 2);
    assert_eq!(store.find_administrative_unit("НГДУ-2"), Some(&unit("НГДУ-2")));
    assert_eq!(store.find_administrative_unit("НГДУ-3"), None);
}
