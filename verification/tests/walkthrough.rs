use ciam_store::identity::ContentHash;
use ciam_store::records::{AdministrativeUnit, MeasurementRecord, NodeKind, Well, Workshop};
use ciam_store::store::Store;

fn text(s: &str) -> String {
    s.to_string()
}

fn measurement(id: &str) -> MeasurementRecord {
    MeasurementRecord {
        id: ContentHash::parse(id).unwrap(),
        creation_timestamp: text("2024-01-01T00:00:01"),
        source: None,
        measurement_type: None,
        operator: None,
        bush: None,
        type_human: None,
        administrative_unit_id: None,
        workshop_id: None,
        well_id: None,
        measurement_date_time: None,
        meta: None,
        device_meta: None,
        data_array: None,
    }
}

#[test]
fn a_measurement_of_a_well_is_found_by_well_and_by_time() {
    let mut store = Store::create();
    store
        .insert_administrative_unit(AdministrativeUnit {
            id: text("A1"),
            external_id: text("U1"),
            base_id: text("B"),
            abbreviation: text("NG1"),
            title: text("Unit One"),
        })
        .unwrap();
    store
        .insert_workshop(Workshop {
            id: text("W1"),
            external_id: None,
            base_id: text("B"),
            abbreviation: text("WS1"),
            title: text("Shop"),
            extended_title: text("Shop One"),
            administrative_unit_id: text("A1"),
        })
        .unwrap();
    store
        .insert_well(Well {
            id: text("WL1"),
            external_id: None,
            base_id: text("B"),
            number: text("101"),
            workshop_id: text("W1"),
        })
        .unwrap();
    let mut record = measurement("d41d8cd98f00b204e9800998ecf8427e");
    record.well_id = Some(text("WL1"));
    record.measurement_date_time = Some(text("2024-01-01T00:00:00"));
    store.ingest(record.clone()).unwrap();

    let by_well = store.query_by_hierarchy(NodeKind::Well, "WL1");
    assert_eq!(by_well, vec![&record]);
    let in_range = store.query_by_time_range("2024-01-01", "2024-01-02");
    assert_eq!(in_range, vec![&record]);
    let out_of_range = store.query_by_time_range("2023-01-01", "2023-12-31");
    assert!(out_of_range.is_empty());
}
