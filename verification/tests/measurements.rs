use ciam_store::error::StoreError;
use ciam_store::identity::ContentHash;
use ciam_store::payload::Payload;
use ciam_store::records::{AdministrativeUnit, MeasurementRecord, NodeKind, Well, Workshop};
use ciam_store::store::Store;

const EMPTY_HASH: &str = "d41d8cd98f00b204e9800998ecf8427e";
const OTHER_HASH: &str = "0cc175b9c0f1b6a831c399e269772661";

fn measurement(id: &str) -> MeasurementRecord {
    MeasurementRecord {
        id: ContentHash::parse(id).unwrap(),
        creation_timestamp: "2024-01-01T00:00:01".to_string(),
        source: Some("device".to_string()),
        measurement_type: Some("dynamogram".to_string()),
        operator: None,
        bush: None,
        type_human: None,
        administrative_unit_id: None,
        workshop_id: None,
        well_id: None,
        measurement_date_time: None,
        meta: None,
        device_meta: None,
        data_array: None,
    }
}

fn store_with_hierarchy() -> Store {
    let mut store = Store::create();
    store
        .insert_administrative_unit(AdministrativeUnit {
            id: "A1".to_string(),
            external_id: "U1".to_string(),
            base_id: "B".to_string(),
            abbreviation: "NG1".to_string(),
            title: "Unit One".to_string(),
        })
        .unwrap();
    store
        .insert_workshop(Workshop {
            id: "W1".to_string(),
            external_id: None,
            base_id: "B".to_string(),
            abbreviation: "WS1".to_string(),
            title: "Shop".to_string(),
            extended_title: "Shop One".to_string(),
            administrative_unit_id: "A1".to_string(),
        })
        .unwrap();
    store
        .insert_well(Well {
            id: "WL1".to_string(),
            external_id: None,
            base_id: "B".to_string(),
            number: "101".to_string(),
            workshop_id: "W1".to_string(),
        })
        .unwrap();
    store
}

#[test]
fn ingesting_the_same_record_twice_leaves_one_row() {
    let mut store = Store::create();
    let first = measurement(EMPTY_HASH);
    let second = measurement(EMPTY_HASH);
    assert_eq!(store.ingest(first), Ok(()));
    assert_eq!(store.ingest(second), Ok(()));
    assert_eq!(store.measurement_count(), 1);
    assert_eq!(
        store.find_measurement(&ContentHash::parse(EMPTY_HASH).unwrap()),
        Some(&measurement(EMPTY_HASH))
    );
}

#[test]
fn a_stored_record_is_not_overwritten_by_one_of_the_same_identity() {
    let mut store = Store::create();
    let first = measurement(EMPTY_HASH);
    let mut second = measurement(EMPTY_HASH);
    second.source = Some("another".to_string());
    store.ingest(first.clone()).unwrap();
    assert_eq!(store.ingest(second), Ok(()));
    assert_eq!(store.measurement_count(), 1);
    assert_eq!(store.find_measurement(&first.id), Some(&first));
}

#[test]
fn a_record_with_an_unknown_well_is_not_stored() {
    let mut store = store_with_hierarchy();
    let mut record = measurement(EMPTY_HASH);
    record.well_id = Some("WL9".to_string());
    assert_eq!(
        store.ingest(record.clone()),
        Err(StoreError::DanglingReference { kind: NodeKind::Well, id: "WL9".to_string() })
    );
    assert_eq!(store.measurement_count(), 0);
    assert_eq!(store.find_measurement(&record.id), None);
    assert!(store.query_by_hierarchy(NodeKind::Well, "WL9").is_empty());
}

#[test]
fn a_record_with_an_unknown_unit_or_workshop_is_not_stored() {
    let mut store = store_with_hierarchy();
    let mut by_unit = measurement(EMPTY_HASH);
    by_unit.administrative_unit_id = Some("A9".to_string());
    assert_eq!(
        store.ingest(by_unit),
        Err(StoreError::DanglingReference {
            kind: NodeKind::AdministrativeUnit,
            id: "A9".to_string()
        })
    );
    let mut by_workshop = measurement(OTHER_HASH);
    by_workshop.workshop_id = Some("W9".to_string());
    assert_eq!(
        store.ingest(by_workshop),
        Err(StoreError::DanglingReference { kind: NodeKind::Workshop, id: "W9".to_string() })
    );
    assert_eq!(store.measurement_count(), 0);
}

#[test]
fn the_first_unknown_reference_is_the_one_reported() {
    let mut store = store_with_hierarchy();
    let mut record = measurement(EMPTY_HASH);
    record.administrative_unit_id = Some("A1".to_string());
    record.workshop_id = Some("W9".to_string());
    record.well_id = Some("WL9".to_string());
    assert_eq!(
        store.ingest(record),
        Err(StoreError::DanglingReference { kind: NodeKind::Workshop, id: "W9".to_string() })
    );
}

#[test]
fn references_are_optional_and_need_not_agree() {
    let mut store = store_with_hierarchy();
    store
        .insert_administrative_unit(AdministrativeUnit {
            id: "A2".to_string(),
            external_id: "U2".to_string(),
            base_id: "B".to_string(),
            abbreviation: "NG2".to_string(),
            title: "Unit Two".to_string(),
        })
        .unwrap();
    let none = measurement(EMPTY_HASH);
    assert_eq!(store.ingest(none), Ok(()));
    let mut mixed = measurement(OTHER_HASH);
    mixed.administrative_unit_id = Some("A2".to_string());
    mixed.well_id = Some("WL1".to_string());
    assert_eq!(store.ingest(mixed), Ok(()));
    assert_eq!(store.measurement_count(), 2);
}

#[test]
fn a_refused_record_can_be_ingested_once_its_well_is_stored() {
    let mut store = store_with_hierarchy();
    let mut record = measurement(EMPTY_HASH);
    record.well_id = Some("WL2".to_string());
    assert!(store.ingest(record.clone()).is_err());
    store
        .insert_well(Well {
            id: "WL2".to_string(),
            external_id: None,
            base_id: "B".to_string(),
            number: "102".to_string(),
            workshop_id: "W1".to_string(),
        })
        .unwrap();
    assert_eq!(store.ingest(record.clone()), Ok(()));
    assert_eq!(store.find_measurement(&record.id), Some(&record));
}

#[test]
fn the_data_array_comes_back_as_it_went_in() {
    let mut store = Store::create();
    let samples: Vec<f64> = vec![0.5, 1.25, -3.0, 1e3, 42.0, 0.0, 7.75];
    let written: Vec<String> = samples.iter().map(|s| format!("{:?}", s)).collect();
    let text = format!("[{}]", written.join(","));
    let mut record = measurement(EMPTY_HASH);
    record.data_array = Some(Payload::parse(&text).unwrap());
    store.ingest(record.clone()).unwrap();

    let found = store.find_measurement(&record.id).unwrap();
    let stored = found.data_array.as_ref().unwrap().as_str();
    assert_eq!(stored, text);
    let read: Vec<f64> = stored[1..stored.len() - 1]
        .split(',')
        .map(|s| s.parse::<f64>().unwrap())
        .collect();
    assert_eq!(read.len(), samples.len());
    assert_eq!(read, samples);
}

#[test]
fn payloads_are_kept_verbatim() {
    let mut store = Store::create();
    let meta = "{ \"b\" : 1,\n \"a\" : [true, null] }";
    let device = "{\"серийный\":\"№7\"}";
    let mut record = measurement(EMPTY_HASH);
    record.meta = Some(Payload::parse(meta).unwrap());
    record.device_meta = Some(Payload::parse(device).unwrap());
    store.ingest(record.clone()).unwrap();
    let found = store.find_measurement(&record.id).unwrap();
    assert_eq!(found.meta.as_ref().unwrap().as_str(), meta);
    assert_eq!(found.device_meta.as_ref().unwrap().as_str(), device);
    assert_eq!(found.data_array, None);
    assert_eq!(found, &record);
}

#[test]
fn a_malformed_payload_is_refused() {
    assert_eq!(Payload::parse("[1, 2,"), Err(StoreError::MalformedPayload));
    assert_eq!(Payload::parse(""), Err(StoreError::MalformedPayload));
    assert_eq!(Payload::parse("{key: 1}"), Err(StoreError::MalformedPayload));
    assert_eq!(Payload::parse("[1] x"), Err(StoreError::MalformedPayload));
    assert!(Payload::parse("[1, 2]").is_ok());
}

#[test]
fn a_copy_of_a_payload_holds_the_same_text() {
    let payload = Payload::parse("{\"a\": [1, 2, 3]}").unwrap();
    let copy = payload.clone();
    assert_eq!(copy.as_str(), "{\"a\": [1, 2, 3]}");
    assert_eq!(copy, payload);
}

#[test]
fn a_copy_of_a_record_equals_the_record() {
    let mut record = measurement(EMPTY_HASH);
    record.well_id = Some("WL1".to_string());
    record.meta = Some(Payload::parse("{}").unwrap());
    record.data_array = Some(Payload::parse("[1,2]").unwrap());
    let copy = record.clone();
    assert_eq!(copy, record);
    assert_eq!(copy.id.as_str(), EMPTY_HASH);
    assert_eq!(copy.data_array.unwrap().as_str(), "[1,2]");
}

#[test]
fn lookup_by_an_unknown_identity_answers_none() {
    let mut store = Store::create();
    store.ingest(measurement(EMPTY_HASH)).unwrap();
    assert_eq!(store.find_measurement(&ContentHash::parse(OTHER_HASH).unwrap()), None);
}

#[test]
fn identities_that_differ_in_case_are_different() {
    let mut store = Store::create();
    store.ingest(measurement("d41d8cd98f00b204e9800998ecf8427e")).unwrap();
    store.ingest(measurement("D41D8CD98F00B204E9800998ECF8427E")).unwrap();
    assert_eq!(store.measurement_count(), 2);
}

#[test]
fn measurements_are_kept_in_the_order_of_ingestion() {
    let mut store = Store::create();
    store.ingest(measurement(OTHER_HASH)).unwrap();
    store.ingest(measurement(EMPTY_HASH)).unwrap();
    assert_eq!(store.measurement_at(0).id.as_str(), OTHER_HASH);
    assert_eq!(store.measurement_at(1).id.as_str(), EMPTY_HASH);
}

#[test]
fn records_identified_by_the_hash_of_equal_content_are_one_record() {
    let content = "{\"well\":\"WL1\",\"samples\":[0.5,0.75]}";
    let mut first = measurement(EMPTY_HASH);
    first.id = ContentHash::of(content.as_bytes());
    let mut second = measurement(EMPTY_HASH);
    second.id = ContentHash::of(content.as_bytes());
    let mut store = Store::create();
    assert_eq!(store.ingest(first.clone()), Ok(()));
    assert_eq!(store.ingest(second), Ok(()));
    assert_eq!(store.measurement_count(), 1);
    assert_eq!(store.find_measurement(&ContentHash::of(content.as_bytes())), Some(&first));
}
