//! The database as mathematics: what it holds, what makes it sound, and
//! what each write does to it.

use vstd::prelude::*;
use crate::error::StoreErrorView;
use crate::migration::SchemaView;
use crate::records::{
    AdministrativeUnitView,
    HierarchyNodeView,
    MeasurementView,
    NodeKind,
    WellView,
    WorkshopView,
};

verus! {

/// The state of a database: its schema, and the rows of its four tables in
/// the order in which they were written.
pub struct DatabaseView {
    pub schema: SchemaView,
    pub units: Seq<AdministrativeUnitView>,
    pub workshops: Seq<WorkshopView>,
    pub wells: Seq<WellView>,
    pub measurements: Seq<MeasurementView>,
}

/// How many of the rows carry the identity.
pub open spec fn count_with(rows: Seq<MeasurementView>, id: Seq<char>) -> nat
    decreases rows.len(),
{
    if rows.len() == 0 {
        0
    } else {
        count_with(rows.drop_last(), id) + if rows.last().id == id {
            1nat
        } else {
            0nat
        }
    }
}

impl DatabaseView {
    /// A database that has never been initialised and holds nothing.
    pub open spec fn fresh() -> DatabaseView {
        DatabaseView {
            schema: SchemaView::absent(),
            units: Seq::empty(),
            workshops: Seq::empty(),
            wells: Seq::empty(),
            measurements: Seq::empty(),
        }
    }

    pub open spec fn has_unit(self, id: Seq<char>) -> bool {
        exists|i: int| 0 <= i < self.units.len() && (#[trigger] self.units[i]).id == id
    }

    pub open spec fn has_workshop(self, id: Seq<char>) -> bool {
        exists|i: int| 0 <= i < self.workshops.len() && (#[trigger] self.workshops[i]).id == id
    }

    pub open spec fn has_well(self, id: Seq<char>) -> bool {
        exists|i: int| 0 <= i < self.wells.len() && (#[trigger] self.wells[i]).id == id
    }

    pub open spec fn has_measurement(self, id: Seq<char>) -> bool {
        exists|i: int|
            0 <= i < self.measurements.len() && (#[trigger] self.measurements[i]).id == id
    }

    /// A node of this kind and identity is stored.
    pub open spec fn has_node(self, kind: NodeKind, id: Seq<char>) -> bool {
        match kind {
            NodeKind::AdministrativeUnit => self.has_unit(id),
            NodeKind::Workshop => self.has_workshop(id),
            NodeKind::Well => self.has_well(id),
        }
    }

    /// An optional reference resolves when it is absent or names a stored
    /// node of the kind.
    pub open spec fn resolves(self, kind: NodeKind, reference: Option<Seq<char>>) -> bool {
        match reference {
            Some(id) => self.has_node(kind, id),
            None => true,
        }
    }

    /// All three references of a measurement resolve.
    pub open spec fn resolves_all(self, m: MeasurementView) -> bool {
        &&& self.resolves(NodeKind::AdministrativeUnit, m.administrative_unit_id)
        &&& self.resolves(NodeKind::Workshop, m.workshop_id)
        &&& self.resolves(NodeKind::Well, m.well_id)
    }

    /// The number of measurements stored under an identity.
    pub open spec fn rows_with(self, id: Seq<char>) -> nat {
        count_with(self.measurements, id)
    }

    /// The database is sound: the catalog is, no identity is used twice
    /// within a table, every workshop has its unit, every well its
    /// workshop, and every measurement is well-formed and refers only to
    /// nodes that are stored.
    pub open spec fn wf(self) -> bool {
        &&& self.schema.wf()
        &&& forall|i: int, j: int|
            0 <= i < j < self.units.len() ==> (#[trigger] self.units[i]).id != (
            #[trigger] self.units[j]).id
        &&& forall|i: int, j: int|
            0 <= i < j < self.workshops.len() ==> (#[trigger] self.workshops[i]).id != (
            #[trigger] self.workshops[j]).id
        &&& forall|i: int, j: int|
            0 <= i < j < self.wells.len() ==> (#[trigger] self.wells[i]).id != (
            #[trigger] self.wells[j]).id
        &&& forall|i: int, j: int|
            0 <= i < j < self.measurements.len() ==> (#[trigger] self.measurements[i]).id != (
            #[trigger] self.measurements[j]).id
        &&& forall|i: int|
            0 <= i < self.workshops.len() ==> self.has_unit(
                (#[trigger] self.workshops[i]).administrative_unit_id,
            )
        &&& forall|i: int|
            0 <= i < self.wells.len() ==> self.has_workshop((#[trigger] self.wells[i]).workshop_id)
        &&& forall|i: int|
            0 <= i < self.measurements.len() ==> (#[trigger] self.measurements[i]).well_formed()
                && self.resolves_all(self.measurements[i])
    }

    /// Inserting an administrative unit: refused with `DuplicateIdentity`
    /// when the identity is taken, else the unit becomes the last row.
    pub open spec fn insert_administrative_unit(self, unit: AdministrativeUnitView) -> Result<
        DatabaseView,
        StoreErrorView,
    > {
        if self.has_unit(unit.id) {
            Err(
                StoreErrorView::DuplicateIdentity {
                    kind: NodeKind::AdministrativeUnit,
                    id: unit.id,
                },
            )
        } else {
            Ok(DatabaseView { units: self.units.push(unit), ..self })
        }
    }

    /// Inserting a workshop: refused with `DanglingReference` when its
    /// administrative unit is not stored, else with `DuplicateIdentity`
    /// when its identity is taken, else the workshop becomes the last row.
    pub open spec fn insert_workshop(self, workshop: WorkshopView) -> Result<
        DatabaseView,
        StoreErrorView,
    > {
        if !self.has_unit(workshop.administrative_unit_id) {
            Err(
                StoreErrorView::DanglingReference {
                    kind: NodeKind::AdministrativeUnit,
                    id: workshop.administrative_unit_id,
                },
            )
        } else if self.has_workshop(workshop.id) {
            Err(StoreErrorView::DuplicateIdentity { kind: NodeKind::Workshop, id: workshop.id })
        } else {
            Ok(DatabaseView { workshops: self.workshops.push(workshop), ..self })
        }
    }

    /// Inserting a well: refused with `DanglingReference` when its workshop
    /// is not stored, else with `DuplicateIdentity` when its identity is
    /// taken, else the well becomes the last row.
    pub open spec fn insert_well(self, well: WellView) -> Result<DatabaseView, StoreErrorView> {
        if !self.has_workshop(well.workshop_id) {
            Err(
                StoreErrorView::DanglingReference {
                    kind: NodeKind::Workshop,
                    id: well.workshop_id,
                },
            )
        } else if self.has_well(well.id) {
            Err(StoreErrorView::DuplicateIdentity { kind: NodeKind::Well, id: well.id })
        } else {
            Ok(DatabaseView { wells: self.wells.push(well), ..self })
        }
    }

    /// Inserting a node of any kind.
    pub open spec fn insert_node(self, node: HierarchyNodeView) -> Result<
        DatabaseView,
        StoreErrorView,
    > {
        match node {
            HierarchyNodeView::AdministrativeUnit(unit) => self.insert_administrative_unit(unit),
            HierarchyNodeView::Workshop(workshop) => self.insert_workshop(workshop),
            HierarchyNodeView::Well(well) => self.insert_well(well),
        }
    }

    /// The first reference of a measurement that does not resolve, taken in
    /// the order unit, workshop, well, as the error that reports it.
    pub open spec fn dangling(self, m: MeasurementView) -> Option<StoreErrorView> {
        if !self.resolves(NodeKind::AdministrativeUnit, m.administrative_unit_id) {
            Some(
                StoreErrorView::DanglingReference {
                    kind: NodeKind::AdministrativeUnit,
                    id: m.administrative_unit_id->Some_0,
                },
            )
        } else if !self.resolves(NodeKind::Workshop, m.workshop_id) {
            Some(
                StoreErrorView::DanglingReference {
                    kind: NodeKind::Workshop,
                    id: m.workshop_id->Some_0,
                },
            )
        } else if !self.resolves(NodeKind::Well, m.well_id) {
            Some(StoreErrorView::DanglingReference { kind: NodeKind::Well, id: m.well_id->Some_0 })
        } else {
            None
        }
    }

    /// Ingesting a measurement: a no-op when its identity is stored
    /// already; else refused with `DanglingReference` when one of its
    /// references does not resolve; else the measurement becomes the last
    /// row.
    pub open spec fn ingest(self, m: MeasurementView) -> Result<DatabaseView, StoreErrorView> {
        if self.has_measurement(m.id) {
            Ok(self)
        } else {
            match self.dangling(m) {
                Some(error) => Err(error),
                None => Ok(DatabaseView { measurements: self.measurements.push(m), ..self }),
            }
        }
    }

    /// The administrative unit stored under an identity, if there is one.
    pub open spec fn unit(self, id: Seq<char>) -> Option<AdministrativeUnitView> {
        if self.has_unit(id) {
            Some(
                self.units[choose|i: int|
                    0 <= i < self.units.len() && (#[trigger] self.units[i]).id == id],
            )
        } else {
            None
        }
    }

    /// The workshop stored under an identity, if there is one.
    pub open spec fn workshop(self, id: Seq<char>) -> Option<WorkshopView> {
        if self.has_workshop(id) {
            Some(
                self.workshops[choose|i: int|
                    0 <= i < self.workshops.len() && (#[trigger] self.workshops[i]).id == id],
            )
        } else {
            None
        }
    }

    /// The well stored under an identity, if there is one.
    pub open spec fn well(self, id: Seq<char>) -> Option<WellView> {
        if self.has_well(id) {
            Some(
                self.wells[choose|i: int|
                    0 <= i < self.wells.len() && (#[trigger] self.wells[i]).id == id],
            )
        } else {
            None
        }
    }

    /// The measurement stored under an identity, if there is one.
    pub open spec fn measurement(self, id: Seq<char>) -> Option<MeasurementView> {
        if self.has_measurement(id) {
            Some(
                self.measurements[choose|i: int|
                    0 <= i < self.measurements.len() && (#[trigger] self.measurements[i]).id
                        == id],
            )
        } else {
            None
        }
    }
}

impl DatabaseView {
    /// Every table of `self` starts with the rows of the same table of
    /// `earlier`, in the same order: rows were added, none changed or
    /// removed.
    pub open spec fn extends(self, earlier: DatabaseView) -> bool {
        &&& earlier.units.is_prefix_of(self.units)
        &&& earlier.workshops.is_prefix_of(self.workshops)
        &&& earlier.wells.is_prefix_of(self.wells)
        &&& earlier.measurements.is_prefix_of(self.measurements)
    }

    /// What was stored in an earlier state is stored in a state that
    /// extends it, and what resolved there still resolves.
    pub proof fn lemma_extends_keeps(self, earlier: DatabaseView)
        requires
            self.extends(earlier),
        ensures
            forall|kind: NodeKind, id: Seq<char>| #[trigger]
                earlier.has_node(kind, id) ==> self.has_node(kind, id),
            forall|id: Seq<char>| earlier.has_measurement(id) ==> self.has_measurement(id),
            forall|m: MeasurementView| #[trigger]
                earlier.resolves_all(m) ==> self.resolves_all(m),
    {
        assert forall|kind: NodeKind, id: Seq<char>| #[trigger]
            earlier.has_node(kind, id) implies self.has_node(kind, id) by {
            match kind {
                NodeKind::AdministrativeUnit => {
                    let i = choose|i: int| 0 <= i < earlier.units.len() && earlier.units[i].id == id;
                    assert(self.units[i] == earlier.units[i]);
                },
                NodeKind::Workshop => {
                    let i = choose|i: int|
                        0 <= i < earlier.workshops.len() && earlier.workshops[i].id == id;
                    assert(self.workshops[i] == earlier.workshops[i]);
                },
                NodeKind::Well => {
                    let i = choose|i: int| 0 <= i < earlier.wells.len() && earlier.wells[i].id == id;
                    assert(self.wells[i] == earlier.wells[i]);
                },
            }
        }
        assert forall|id: Seq<char>| earlier.has_measurement(id) implies self.has_measurement(
            id,
        ) by {
            let i = choose|i: int|
                0 <= i < earlier.measurements.len() && earlier.measurements[i].id == id;
            assert(self.measurements[i] == earlier.measurements[i]);
        }
        assert forall|m: MeasurementView| #[trigger] earlier.resolves_all(m) implies self.resolves_all(
            m,
        ) by {
            if m.administrative_unit_id is Some {
                assert(earlier.has_node(
                    NodeKind::AdministrativeUnit,
                    m.administrative_unit_id->Some_0,
                ));
            }
            if m.workshop_id is Some {
                assert(earlier.has_node(NodeKind::Workshop, m.workshop_id->Some_0));
            }
            if m.well_id is Some {
                assert(earlier.has_node(NodeKind::Well, m.well_id->Some_0));
            }
        }
    }

    /// A sound database in which rows were added stays sound when the new
    /// rows bring no identity twice and refer only to what is stored.
    proof fn lemma_extension_wf(self, earlier: DatabaseView)
        requires
            earlier.wf(),
            self.extends(earlier),
            self.schema == earlier.schema,
            forall|j: int|
                earlier.units.len() <= j < self.units.len() ==> forall|i: int|
                    0 <= i < j ==> (#[trigger] self.units[i]).id != (#[trigger] self.units[j]).id,
            forall|j: int|
                earlier.workshops.len() <= j < self.workshops.len() ==> self.has_unit(
                    (#[trigger] self.workshops[j]).administrative_unit_id,
                ) && forall|i: int|
                    0 <= i < j ==> (#[trigger] self.workshops[i]).id != self.workshops[j].id,
            forall|j: int|
                earlier.wells.len() <= j < self.wells.len() ==> self.has_workshop(
                    (#[trigger] self.wells[j]).workshop_id,
                ) && forall|i: int| 0 <= i < j ==> (#[trigger] self.wells[i]).id != self.wells[j].id,
            forall|j: int|
                earlier.measurements.len() <= j < self.measurements.len() ==> (
                #[trigger] self.measurements[j]).well_formed() && self.resolves_all(
                    self.measurements[j],
                ) && forall|i: int|
                    0 <= i < j ==> (#[trigger] self.measurements[i]).id != self.measurements[j].id,
        ensures
            self.wf(),
    {
        self.lemma_extends_keeps(earlier);
        assert forall|i: int, j: int| 0 <= i < j < self.units.len() implies (
        #[trigger] self.units[i]).id != (#[trigger] self.units[j]).id by {
            if j < earlier.units.len() {
                assert(self.units[i] == earlier.units[i]);
                assert(self.units[j] == earlier.units[j]);
            }
        }
        assert forall|i: int, j: int| 0 <= i < j < self.workshops.len() implies (
        #[trigger] self.workshops[i]).id != (#[trigger] self.workshops[j]).id by {
            if j < earlier.workshops.len() {
                assert(self.workshops[i] == earlier.workshops[i]);
                assert(self.workshops[j] == earlier.workshops[j]);
            }
        }
        assert forall|i: int, j: int| 0 <= i < j < self.wells.len() implies (
        #[trigger] self.wells[i]).id != (#[trigger] self.wells[j]).id by {
            if j < earlier.wells.len() {
                assert(self.wells[i] == earlier.wells[i]);
                assert(self.wells[j] == earlier.wells[j]);
            }
        }
        assert forall|i: int, j: int| 0 <= i < j < self.measurements.len() implies (
        #[trigger] self.measurements[i]).id != (#[trigger] self.measurements[j]).id by {
            if j < earlier.measurements.len() {
                assert(self.measurements[i] == earlier.measurements[i]);
                assert(self.measurements[j] == earlier.measurements[j]);
            }
        }
        assert forall|i: int| 0 <= i < self.workshops.len() implies self.has_unit(
            (#[trigger] self.workshops[i]).administrative_unit_id,
        ) by {
            if i < earlier.workshops.len() {
                assert(self.workshops[i] == earlier.workshops[i]);
                assert(earlier.has_node(
                    NodeKind::AdministrativeUnit,
                    earlier.workshops[i].administrative_unit_id,
                ));
            }
        }
        assert forall|i: int| 0 <= i < self.wells.len() implies self.has_workshop(
            (#[trigger] self.wells[i]).workshop_id,
        ) by {
            if i < earlier.wells.len() {
                assert(self.wells[i] == earlier.wells[i]);
                assert(earlier.has_node(NodeKind::Workshop, earlier.wells[i].workshop_id));
            }
        }
        assert forall|i: int| 0 <= i < self.measurements.len() implies (
        #[trigger] self.measurements[i]).well_formed() && self.resolves_all(
            self.measurements[i],
        ) by {
            if i < earlier.measurements.len() {
                assert(self.measurements[i] == earlier.measurements[i]);
                assert(earlier.resolves_all(earlier.measurements[i]));
            }
        }
    }

    /// Every accepted insertion of a node leaves a sound database sound and
    /// only adds to it.
    pub proof fn lemma_insert_node_wf(self, node: HierarchyNodeView)
        requires
            self.wf(),
            self.insert_node(node) is Ok,
        ensures
            self.insert_node(node)->Ok_0.wf(),
            self.insert_node(node)->Ok_0.extends(self),
    {
        let next = self.insert_node(node)->Ok_0;
        match node {
            HierarchyNodeView::AdministrativeUnit(unit) => {
                assert(next.units[self.units.len() as int] == unit);
            },
            HierarchyNodeView::Workshop(workshop) => {
                assert(next.workshops[self.workshops.len() as int] == workshop);
            },
            HierarchyNodeView::Well(well) => {
                assert(next.wells[self.wells.len() as int] == well);
            },
        }
        next.lemma_extends_keeps(self);
        match node {
            HierarchyNodeView::AdministrativeUnit(unit) => {},
            HierarchyNodeView::Workshop(workshop) => {
                assert(self.has_node(NodeKind::AdministrativeUnit, workshop.administrative_unit_id));
            },
            HierarchyNodeView::Well(well) => {
                assert(self.has_node(NodeKind::Workshop, well.workshop_id));
            },
        }
        next.lemma_extension_wf(self);
    }

    /// Every accepted ingestion of a well-formed measurement leaves a sound
    /// database sound and only adds to it.
    pub proof fn lemma_ingest_wf(self, m: MeasurementView)
        requires
            self.wf(),
            m.well_formed(),
            self.ingest(m) is Ok,
        ensures
            self.ingest(m)->Ok_0.wf(),
            self.ingest(m)->Ok_0.extends(self),
    {
        let next = self.ingest(m)->Ok_0;
        if !self.has_measurement(m.id) {
            assert(next.measurements[self.measurements.len() as int] == m);
            next.lemma_extends_keeps(self);
            assert(self.resolves_all(m));
            next.lemma_extension_wf(self);
        }
    }
}

} // verus!
