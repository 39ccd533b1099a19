//! What holds of every database, whatever was written to it.
//!
//! Each law is stated over the model of the database and proved from the
//! definitions of the writes. The store's functions are proved to do what
//! the model says, so the laws hold of the store.

use vstd::prelude::*;
use crate::database::{count_with, DatabaseView};
use crate::error::StoreErrorView;
use crate::records::{
    AdministrativeUnitView,
    MeasurementView,
    NodeKind,
    WellView,
    WorkshopView,
};

verus! {

/// A workshop whose identity is free can be inserted as soon as its
/// administrative unit has been, and is refused with `DanglingReference`
/// while the unit is not stored.
pub proof fn lemma_workshop_follows_unit(
    db: DatabaseView,
    unit: AdministrativeUnitView,
    workshop: WorkshopView,
)
    requires
        workshop.administrative_unit_id == unit.id,
        !db.has_workshop(workshop.id),
    ensures
        !db.has_unit(unit.id) ==> db.insert_workshop(workshop) == Err::<
            DatabaseView,
            StoreErrorView,
        >(StoreErrorView::DanglingReference { kind: NodeKind::AdministrativeUnit, id: unit.id }),
        db.insert_administrative_unit(unit) is Ok ==> db.insert_administrative_unit(
            unit,
        )->Ok_0.insert_workshop(workshop) is Ok,
        db.has_unit(unit.id) ==> db.insert_workshop(workshop) is Ok,
{
    if db.insert_administrative_unit(unit) is Ok {
        let next = db.insert_administrative_unit(unit)->Ok_0;
        assert(next.units[db.units.len() as int].id == unit.id);
        assert(next.workshops == db.workshops);
    }
}

/// A well whose identity is free can be inserted as soon as its workshop
/// has been, and is refused with `DanglingReference` while the workshop is
/// not stored.
pub proof fn lemma_well_follows_workshop(db: DatabaseView, workshop: WorkshopView, well: WellView)
    requires
        well.workshop_id == workshop.id,
        !db.has_well(well.id),
    ensures
        !db.has_workshop(workshop.id) ==> db.insert_well(well) == Err::<
            DatabaseView,
            StoreErrorView,
        >(StoreErrorView::DanglingReference { kind: NodeKind::Workshop, id: workshop.id }),
        db.insert_workshop(workshop) is Ok ==> db.insert_workshop(workshop)->Ok_0.insert_well(
            well,
        ) is Ok,
        db.has_workshop(workshop.id) ==> db.insert_well(well) is Ok,
{
    if db.insert_workshop(workshop) is Ok {
        let next = db.insert_workshop(workshop)->Ok_0;
        assert(next.workshops[db.workshops.len() as int].id == workshop.id);
        assert(next.wells == db.wells);
    }
}

/// Where no identity occurs twice, an identity that occurs at all occurs
/// once.
pub proof fn lemma_count_of_distinct(rows: Seq<MeasurementView>, id: Seq<char>)
    requires
        forall|i: int, j: int|
            0 <= i < j < rows.len() ==> (#[trigger] rows[i]).id != (#[trigger] rows[j]).id,
    ensures
        count_with(rows, id) == if exists|i: int|
            0 <= i < rows.len() && (#[trigger] rows[i]).id == id {
            1nat
        } else {
            0nat
        },
    decreases rows.len(),
{
    if rows.len() > 0 {
        let front = rows.drop_last();
        assert forall|i: int, j: int| 0 <= i < j < front.len() implies (#[trigger] front[i]).id
            != (#[trigger] front[j]).id by {
            assert(front[i] == rows[i] && front[j] == rows[j]);
        }
        lemma_count_of_distinct(front, id);
        if exists|i: int| 0 <= i < front.len() && (#[trigger] front[i]).id == id {
            let i = choose|i: int| 0 <= i < front.len() && (#[trigger] front[i]).id == id;
            assert(rows[i] == front[i]);
            assert(rows[i].id != rows[rows.len() - 1].id);
        } else if rows.last().id == id {
            assert(rows[rows.len() - 1].id == id);
        } else {
            assert forall|i: int| 0 <= i < rows.len() implies (#[trigger] rows[i]).id != id by {
                if i < front.len() {
                    assert(front[i] == rows[i]);
                }
            }
        }
    }
}

/// Ingesting the same measurement twice is ingesting it once: the second
/// ingestion succeeds, changes nothing, and the database holds exactly one
/// row under the identity.
pub proof fn lemma_ingest_idempotent(db: DatabaseView, first: MeasurementView, second: MeasurementView)
    requires
        db.wf(),
        first.well_formed(),
        second.id == first.id,
        db.ingest(first) is Ok,
    ensures
        db.ingest(first)->Ok_0.ingest(second) == Ok::<DatabaseView, StoreErrorView>(
            db.ingest(first)->Ok_0,
        ),
        db.ingest(first)->Ok_0.rows_with(first.id) == 1,
{
    let once = db.ingest(first)->Ok_0;
    db.lemma_ingest_wf(first);
    if !db.has_measurement(first.id) {
        assert(once.measurements[db.measurements.len() as int] == first);
    }
    assert(once.has_measurement(first.id));
    lemma_count_of_distinct(once.measurements, first.id);
}

/// A measurement that refers to a well that is not stored is not in the
/// database, and if its identity is new, ingesting it is refused with
/// `DanglingReference`. A refused ingestion leaves no new state: the store
/// is as it was.
pub proof fn lemma_ingest_needs_well(db: DatabaseView, m: MeasurementView)
    requires
        db.wf(),
        m.well_id is Some,
        !db.has_well(m.well_id->Some_0),
    ensures
        !db.measurements.contains(m),
        !db.has_measurement(m.id) ==> db.ingest(m) is Err && db.ingest(
            m,
        )->Err_0 is DanglingReference,
{
    if db.measurements.contains(m) {
        let i = choose|i: int| 0 <= i < db.measurements.len() && db.measurements[i] == m;
        assert(db.resolves_all(db.measurements[i]));
    }
    assert(!db.resolves(NodeKind::Well, m.well_id));
}

/// A measurement that refers to a node that is not stored, of whatever
/// kind, is refused if its identity is new.
pub proof fn lemma_ingest_needs_references(db: DatabaseView, m: MeasurementView)
    requires
        !db.has_measurement(m.id),
    ensures
        db.ingest(m) is Ok <==> db.resolves_all(m),
        db.ingest(m) is Err ==> db.ingest(m)->Err_0 is DanglingReference,
{
}

/// What was ingested under a new identity is what a lookup by that
/// identity finds: every field as it was given, and so the data array with
/// its samples in their order.
pub proof fn lemma_ingest_round_trip(db: DatabaseView, m: MeasurementView)
    requires
        db.wf(),
        m.well_formed(),
        !db.has_measurement(m.id),
        db.ingest(m) is Ok,
    ensures
        db.ingest(m)->Ok_0.measurement(m.id) == Some(m),
        db.ingest(m)->Ok_0.measurement(m.id)->Some_0.data_array == m.data_array,
{
    let next = db.ingest(m)->Ok_0;
    db.lemma_ingest_wf(m);
    assert(next.measurements[db.measurements.len() as int] == m);
}

/// A write never changes or removes what a lookup found before it.
pub proof fn lemma_writes_keep_measurements(db: DatabaseView, next: DatabaseView, id: Seq<char>)
    requires
        db.wf(),
        next.wf(),
        next.extends(db),
        db.has_measurement(id),
    ensures
        next.measurement(id) == db.measurement(id),
{
    let i = choose|i: int| 0 <= i < db.measurements.len() && db.measurements[i].id == id;
    assert(next.measurements[i] == db.measurements[i]);
}

} // verus!
