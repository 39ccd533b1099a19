//! The database in memory and the store that is opened on it.
//!
//! A `Database` is what persists: the schema and the rows. A `Store` is a
//! database on which the migration engine has run to completion; only a
//! store takes writes and answers queries, so nothing reaches the rows
//! before the schema is current, and a database whose migration failed
//! cannot be used until it has been opened with success.

use vstd::prelude::*;
use crate::database::DatabaseView;
use crate::error::{StoreError, StoreErrorView};
use crate::identity::ContentHash;
use crate::migration::{plan_view, versions_increase, Migration, Schema};
use crate::query::{
    answers,
    lemma_selection_passes,
    lemma_selection_takes,
    selects,
    selects_among,
    time_le,
    CriterionView,
};
use crate::records::{
    AdministrativeUnit,
    HierarchyNode,
    HierarchyNodeView,
    MeasurementRecord,
    MeasurementView,
    NodeKind,
    Well,
    Workshop,
};
use crate::schema::{initial_migrations, initial_schema, lemma_initial_schema};
use crate::text::{optional_text, precedes_or_equals, same};

verus! {

/// What a query asks for.
#[derive(Clone, Copy, Debug)]
pub enum Criterion<'a> {
    /// Measurements that refer to this node of the hierarchy.
    Node { kind: NodeKind, id: &'a str },
    /// Measurements of this type.
    Type { measurement_type: &'a str },
    /// Measurements whose time lies between the two bounds, bounds
    /// included.
    Between { start: &'a str, end: &'a str },
}

impl<'a> View for Criterion<'a> {
    type V = CriterionView;

    open spec fn view(&self) -> CriterionView {
        match self {
            Criterion::Node { kind, id } => CriterionView::Node { kind: *kind, id: id@ },
            Criterion::Type { measurement_type } => CriterionView::Type {
                measurement_type: measurement_type@,
            },
            Criterion::Between { start, end } => CriterionView::Between {
                start: start@,
                end: end@,
            },
        }
    }
}

/// The positions of a selection as mathematical integers.
pub open spec fn positions(picks: Seq<usize>) -> Seq<int> {
    picks.map_values(|p: usize| p as int)
}

/// The views of the records of an answer.
pub open spec fn views(answer: Seq<&MeasurementRecord>) -> Seq<MeasurementView> {
    answer.map_values(|m: &MeasurementRecord| m@)
}

fn is_text(value: &Option<String>, text: &str) -> (r: bool)
    ensures
        r == (optional_text(*value) == Some(text@)),
{
    match value {
        Some(held) => same(held.as_str(), text),
        None => false,
    }
}

fn time_precedes(a: &Option<String>, b: &Option<String>) -> (r: bool)
    ensures
        r == time_le(optional_text(*a), optional_text(*b)),
{
    match a {
        Some(x) => match b {
            Some(y) => precedes_or_equals(x.as_str(), y.as_str()),
            None => true,
        },
        None => b.is_none(),
    }
}

impl<'a> Criterion<'a> {
    /// Decides whether a measurement is one the query asks for.
    pub fn fits(&self, m: &MeasurementRecord) -> (r: bool)
        ensures
            r == self@.fits(m@),
    {
        match self {
            Criterion::Node { kind, id } => match kind {
                NodeKind::AdministrativeUnit => is_text(&m.administrative_unit_id, id),
                NodeKind::Workshop => is_text(&m.workshop_id, id),
                NodeKind::Well => is_text(&m.well_id, id),
            },
            Criterion::Type { measurement_type } => is_text(
                &m.measurement_type,
                measurement_type,
            ),
            Criterion::Between { start, end } => match &m.measurement_date_time {
                Some(time) => precedes_or_equals(start, time.as_str()) && precedes_or_equals(
                    time.as_str(),
                    end,
                ),
                None => false,
            },
        }
    }
}

/// The persisted state: the schema and the rows of the four tables.
#[derive(Debug)]
pub struct Database {
    schema: Schema,
    units: Vec<AdministrativeUnit>,
    workshops: Vec<Workshop>,
    wells: Vec<Well>,
    measurements: Vec<MeasurementRecord>,
}

impl View for Database {
    type V = DatabaseView;

    closed spec fn view(&self) -> DatabaseView {
        DatabaseView {
            schema: self.schema@,
            units: self.units@.map_values(|u: AdministrativeUnit| u@),
            workshops: self.workshops@.map_values(|w: Workshop| w@),
            wells: self.wells@.map_values(|w: Well| w@),
            measurements: self.measurements@.map_values(|m: MeasurementRecord| m@),
        }
    }
}

impl Database {
    pub open spec fn wf(&self) -> bool {
        self@.wf()
    }

    /// A database that has never been initialised: version 0, an empty
    /// catalog and no rows.
    pub fn fresh() -> (d: Database)
        ensures
            d@ == DatabaseView::fresh(),
            d.wf(),
    {
        let d = Database {
            schema: Schema::absent(),
            units: Vec::new(),
            workshops: Vec::new(),
            wells: Vec::new(),
            measurements: Vec::new(),
        };
        assert(d@.units =~= Seq::empty());
        assert(d@.workshops =~= Seq::empty());
        assert(d@.wells =~= Seq::empty());
        assert(d@.measurements =~= Seq::empty());
        d
    }

    /// The schema: version counter and catalog.
    pub fn schema(&self) -> (s: &Schema)
        ensures
            s@ == self@.schema,
    {
        &self.schema
    }

    /// The version counter.
    pub fn version(&self) -> (v: u64)
        ensures
            v == self@.schema.version,
    {
        self.schema.version()
    }

    /// Runs the migration engine on the schema. The rows are not touched.
    pub fn migrate(&mut self, migrations: &Vec<Migration>) -> (r: Result<u64, StoreError>)
        requires
            old(self).wf(),
            versions_increase(plan_view(migrations@)),
        ensures
            final(self).wf(),
            final(self)@ == (DatabaseView {
                schema: old(self)@.schema.migrate(plan_view(migrations@)).schema,
                ..old(self)@
            }),
            match old(self)@.schema.migrate(plan_view(migrations@)).failed {
                None => r == Ok::<u64, StoreError>(final(self)@.schema.version),
                Some(version) => r is Err && r->Err_0@ == (StoreErrorView::MigrationFailure {
                    version,
                }),
            },
    {
        self.schema.apply(migrations)
    }
}

/// A database that could not be opened, and why.
#[derive(Debug)]
pub struct OpenFailure {
    pub database: Database,
    pub error: StoreError,
}

/// A database whose schema is current, open for writes and queries.
#[derive(Debug)]
pub struct Store {
    database: Database,
}

impl View for Store {
    type V = DatabaseView;

    closed spec fn view(&self) -> DatabaseView {
        self.database@
    }
}

impl Store {
    pub open spec fn wf(&self) -> bool {
        self@.wf()
    }

    /// Opens a store on a database: runs the migration engine, and hands
    /// out the store only if no migration failed. After a failure the
    /// database comes back with the error, as the migrations before the
    /// failed one left it.
    pub fn open(database: Database, migrations: &Vec<Migration>) -> (r: Result<
        Store,
        OpenFailure,
    >)
        requires
            database.wf(),
            versions_increase(plan_view(migrations@)),
        ensures
            match r {
                Ok(store) => {
                    &&& store.wf()
                    &&& database@.schema.migrate(plan_view(migrations@)).failed is None
                    &&& store@ == (DatabaseView {
                        schema: database@.schema.migrate(plan_view(migrations@)).schema,
                        ..database@
                    })
                },
                Err(failure) => {
                    &&& failure.database.wf()
                    &&& database@.schema.migrate(plan_view(migrations@)).failed is Some
                    &&& failure.error@ == (StoreErrorView::MigrationFailure {
                        version: database@.schema.migrate(plan_view(migrations@)).failed->Some_0,
                    })
                    &&& failure.database@ == (DatabaseView {
                        schema: database@.schema.migrate(plan_view(migrations@)).schema,
                        ..database@
                    })
                },
            },
    {
        let mut database = database;
        match database.migrate(migrations) {
            Ok(_) => Ok(Store { database }),
            Err(error) => Err(OpenFailure { database, error }),
        }
    }

    /// Opens a store on a new database with the schema of this store. This
    /// cannot fail: the migrations of this store run on every database that
    /// has never been initialised.
    pub fn create() -> (store: Store)
        ensures
            store.wf(),
            store@ == (DatabaseView { schema: initial_schema(), ..DatabaseView::fresh() }),
    {
        proof {
            lemma_initial_schema();
        }
        match Store::open(Database::fresh(), &initial_migrations()) {
            Ok(store) => store,
            Err(_) => unreached(),
        }
    }

    /// Closes the store and hands back the database.
    pub fn close(self) -> (d: Database)
        ensures
            d@ == self@,
    {
        self.database
    }

    /// The version of the schema.
    pub fn version(&self) -> (v: u64)
        ensures
            v == self@.schema.version,
    {
        self.database.version()
    }

    /// The schema: version counter and catalog.
    pub fn schema(&self) -> (s: &Schema)
        ensures
            s@ == self@.schema,
    {
        self.database.schema()
    }

    pub fn administrative_unit_count(&self) -> (n: usize)
        ensures
            n == self@.units.len(),
    {
        self.database.units.len()
    }

    pub fn workshop_count(&self) -> (n: usize)
        ensures
            n == self@.workshops.len(),
    {
        self.database.workshops.len()
    }

    pub fn well_count(&self) -> (n: usize)
        ensures
            n == self@.wells.len(),
    {
        self.database.wells.len()
    }

    pub fn measurement_count(&self) -> (n: usize)
        ensures
            n == self@.measurements.len(),
    {
        self.database.measurements.len()
    }

    fn unit_position(&self, id: &str) -> (r: Option<usize>)
        ensures
            match r {
                Some(i) => i < self@.units.len() && self@.units[i as int].id == id@,
                None => !self@.has_unit(id@),
            },
    {
        let mut i: usize = 0;
        while i < self.database.units.len()
            invariant
                i <= self.database.units.len(),
                forall|k: int| 0 <= k < i ==> (#[trigger] self@.units[k]).id != id@,
            decreases self.database.units.len() - i,
        {
            if same(self.database.units[i].id.as_str(), id) {
                return Some(i);
            }
            i += 1;
        }
        None
    }

    fn workshop_position(&self, id: &str) -> (r: Option<usize>)
        ensures
            match r {
                Some(i) => i < self@.workshops.len() && self@.workshops[i as int].id == id@,
                None => !self@.has_workshop(id@),
            },
    {
        let mut i: usize = 0;
        while i < self.database.workshops.len()
            invariant
                i <= self.database.workshops.len(),
                forall|k: int| 0 <= k < i ==> (#[trigger] self@.workshops[k]).id != id@,
            decreases self.database.workshops.len() - i,
        {
            if same(self.database.workshops[i].id.as_str(), id) {
                return Some(i);
            }
            i += 1;
        }
        None
    }

    fn well_position(&self, id: &str) -> (r: Option<usize>)
        ensures
            match r {
                Some(i) => i < self@.wells.len() && self@.wells[i as int].id == id@,
                None => !self@.has_well(id@),
            },
    {
        let mut i: usize = 0;
        while i < self.database.wells.len()
            invariant
                i <= self.database.wells.len(),
                forall|k: int| 0 <= k < i ==> (#[trigger] self@.wells[k]).id != id@,
            decreases self.database.wells.len() - i,
        {
            if same(self.database.wells[i].id.as_str(), id) {
                return Some(i);
            }
            i += 1;
        }
        None
    }

    fn measurement_position(&self, id: &str) -> (r: Option<usize>)
        ensures
            match r {
                Some(i) => i < self@.measurements.len() && self@.measurements[i as int].id == id@,
                None => !self@.has_measurement(id@),
            },
    {
        let mut i: usize = 0;
        while i < self.database.measurements.len()
            invariant
                i <= self.database.measurements.len(),
                forall|k: int| 0 <= k < i ==> (#[trigger] self@.measurements[k]).id != id@,
            decreases self.database.measurements.len() - i,
        {
            if same(self.database.measurements[i].id.as_str(), id) {
                return Some(i);
            }
            i += 1;
        }
        None
    }

    /// Decides whether a node of this kind and identity is stored.
    pub fn has_node(&self, kind: NodeKind, id: &str) -> (r: bool)
        ensures
            r == self@.has_node(kind, id@),
    {
        match kind {
            NodeKind::AdministrativeUnit => self.unit_position(id).is_some(),
            NodeKind::Workshop => self.workshop_position(id).is_some(),
            NodeKind::Well => self.well_position(id).is_some(),
        }
    }

    /// Inserts an administrative unit.
    pub fn insert_administrative_unit(&mut self, unit: AdministrativeUnit) -> (r: Result<
        (),
        StoreError,
    >)
        requires
            old(self).wf(),
        ensures
            final(self).wf(),
            match old(self)@.insert_administrative_unit(unit@) {
                Ok(next) => r is Ok && final(self)@ == next,
                Err(error) => r is Err && r->Err_0@ == error && final(self)@ == old(self)@,
            },
            r is Ok ==> final(self)@.has_unit(unit@.id),
    {
        if self.unit_position(unit.id.as_str()).is_some() {
            return Err(
                StoreError::DuplicateIdentity { kind: NodeKind::AdministrativeUnit, id: unit.id },
            );
        }
        proof {
            self@.lemma_insert_node_wf(HierarchyNodeView::AdministrativeUnit(unit@));
        }
        self.database.units.push(unit);
        assert(self@.units =~= old(self)@.units.push(unit@));
        assert(self@.units[self@.units.len() - 1].id == unit@.id);
        Ok(())
    }

    /// Inserts a workshop. Its administrative unit must be stored already.
    pub fn insert_workshop(&mut self, workshop: Workshop) -> (r: Result<(), StoreError>)
        requires
            old(self).wf(),
        ensures
            final(self).wf(),
            match old(self)@.insert_workshop(workshop@) {
                Ok(next) => r is Ok && final(self)@ == next,
                Err(error) => r is Err && r->Err_0@ == error && final(self)@ == old(self)@,
            },
            r is Ok ==> final(self)@.has_workshop(workshop@.id),
    {
        if self.unit_position(workshop.administrative_unit_id.as_str()).is_none() {
            return Err(
                StoreError::DanglingReference {
                    kind: NodeKind::AdministrativeUnit,
                    id: workshop.administrative_unit_id,
                },
            );
        }
        if self.workshop_position(workshop.id.as_str()).is_some() {
            return Err(StoreError::DuplicateIdentity { kind: NodeKind::Workshop, id: workshop.id });
        }
        proof {
            self@.lemma_insert_node_wf(HierarchyNodeView::Workshop(workshop@));
        }
        self.database.workshops.push(workshop);
        assert(self@.workshops =~= old(self)@.workshops.push(workshop@));
        assert(self@.workshops[self@.workshops.len() - 1].id == workshop@.id);
        Ok(())
    }

    /// Inserts a well. Its workshop must be stored already.
    pub fn insert_well(&mut self, well: Well) -> (r: Result<(), StoreError>)
        requires
            old(self).wf(),
        ensures
            final(self).wf(),
            match old(self)@.insert_well(well@) {
                Ok(next) => r is Ok && final(self)@ == next,
                Err(error) => r is Err && r->Err_0@ == error && final(self)@ == old(self)@,
            },
            r is Ok ==> final(self)@.has_well(well@.id),
    {
        if self.workshop_position(well.workshop_id.as_str()).is_none() {
            return Err(
                StoreError::DanglingReference { kind: NodeKind::Workshop, id: well.workshop_id },
            );
        }
        if self.well_position(well.id.as_str()).is_some() {
            return Err(StoreError::DuplicateIdentity { kind: NodeKind::Well, id: well.id });
        }
        proof {
            self@.lemma_insert_node_wf(HierarchyNodeView::Well(well@));
        }
        self.database.wells.push(well);
        assert(self@.wells =~= old(self)@.wells.push(well@));
        assert(self@.wells[self@.wells.len() - 1].id == well@.id);
        Ok(())
    }

    /// Inserts a node of any of the three kinds.
    pub fn ingest_hierarchy_node(&mut self, node: HierarchyNode) -> (r: Result<(), StoreError>)
        requires
            old(self).wf(),
        ensures
            final(self).wf(),
            match old(self)@.insert_node(node@) {
                Ok(next) => r is Ok && final(self)@ == next,
                Err(error) => r is Err && r->Err_0@ == error && final(self)@ == old(self)@,
            },
    {
        match node {
            HierarchyNode::AdministrativeUnit(unit) => self.insert_administrative_unit(unit),
            HierarchyNode::Workshop(workshop) => self.insert_workshop(workshop),
            HierarchyNode::Well(well) => self.insert_well(well),
        }
    }

    /// Looks up an administrative unit. `None` says that none is stored
    /// under the identity.
    pub fn find_administrative_unit(&self, id: &str) -> (r: Option<&AdministrativeUnit>)
        requires
            self.wf(),
        ensures
            match r {
                Some(found) => self@.unit(id@) == Some(found@),
                None => self@.unit(id@) is None,
            },
    {
        match self.unit_position(id) {
            Some(i) => {
                assert(self@.units[i as int] == self.database.units[i as int]@);
                Some(&self.database.units[i])
            },
            None => None,
        }
    }

    /// Looks up a workshop. `None` says that none is stored under the
    /// identity.
    pub fn find_workshop(&self, id: &str) -> (r: Option<&Workshop>)
        requires
            self.wf(),
        ensures
            match r {
                Some(found) => self@.workshop(id@) == Some(found@),
                None => self@.workshop(id@) is None,
            },
    {
        match self.workshop_position(id) {
            Some(i) => {
                assert(self@.workshops[i as int] == self.database.workshops[i as int]@);
                Some(&self.database.workshops[i])
            },
            None => None,
        }
    }

    /// Looks up a well. `None` says that none is stored under the identity.
    pub fn find_well(&self, id: &str) -> (r: Option<&Well>)
        requires
            self.wf(),
        ensures
            match r {
                Some(found) => self@.well(id@) == Some(found@),
                None => self@.well(id@) is None,
            },
    {
        match self.well_position(id) {
            Some(i) => {
                assert(self@.wells[i as int] == self.database.wells[i as int]@);
                Some(&self.database.wells[i])
            },
            None => None,
        }
    }

    /// Looks up a measurement by its identity. `None` says that none is
    /// stored under it.
    pub fn find_measurement(&self, id: &ContentHash) -> (r: Option<&MeasurementRecord>)
        requires
            self.wf(),
        ensures
            match r {
                Some(found) => self@.measurement(id@) == Some(found@),
                None => self@.measurement(id@) is None,
            },
    {
        match self.measurement_position(id.as_str()) {
            Some(i) => {
                assert(self@.measurements[i as int] == self.database.measurements[i as int]@);
                Some(&self.database.measurements[i])
            },
            None => None,
        }
    }

    fn first_dangling(&self, record: &MeasurementRecord) -> (r: Option<StoreError>)
        ensures
            match r {
                Some(error) => self@.dangling(record@) == Some(error@),
                None => self@.dangling(record@) is None,
            },
    {
        match &record.administrative_unit_id {
            Some(id) => {
                if self.unit_position(id.as_str()).is_none() {
                    return Some(
                        StoreError::DanglingReference {
                            kind: NodeKind::AdministrativeUnit,
                            id: id.clone(),
                        },
                    );
                }
            },
            None => {},
        }
        match &record.workshop_id {
            Some(id) => {
                if self.workshop_position(id.as_str()).is_none() {
                    return Some(
                        StoreError::DanglingReference { kind: NodeKind::Workshop, id: id.clone() },
                    );
                }
            },
            None => {},
        }
        match &record.well_id {
            Some(id) => {
                if self.well_position(id.as_str()).is_none() {
                    return Some(
                        StoreError::DanglingReference { kind: NodeKind::Well, id: id.clone() },
                    );
                }
            },
            None => {},
        }
        None
    }

    /// Ingests a measurement. A measurement whose identity is stored
    /// already is left as it is stored, and the call succeeds. A new one is
    /// stored whole if its references resolve, and not at all if one does
    /// not.
    pub fn ingest(&mut self, record: MeasurementRecord) -> (r: Result<(), StoreError>)
        requires
            old(self).wf(),
        ensures
            final(self).wf(),
            match old(self)@.ingest(record@) {
                Ok(next) => r is Ok && final(self)@ == next,
                Err(error) => r is Err && r->Err_0@ == error && final(self)@ == old(self)@,
            },
            r is Ok ==> final(self)@.has_measurement(record@.id),
    {
        record.attest();
        if self.measurement_position(record.id.as_str()).is_some() {
            return Ok(());
        }
        match self.first_dangling(&record) {
            Some(error) => {
                return Err(error);
            },
            None => {},
        }
        proof {
            self@.lemma_ingest_wf(record@);
        }
        self.database.measurements.push(record);
        assert(self@.measurements =~= old(self)@.measurements.push(record@));
        assert(self@.measurements[self@.measurements.len() - 1].id == record@.id);
        Ok(())
    }

    /// The positions of the rows of an answer, in its order.
    pub fn select(&self, criterion: &Criterion) -> (picks: Vec<usize>)
        ensures
            selects(self@.measurements, criterion@, positions(picks@)),
    {
        let ghost rows = self@.measurements;
        let mut picks: Vec<usize> = Vec::new();
        let mut i: usize = 0;
        assert(positions(picks@) =~= Seq::<int>::empty());
        while i < self.database.measurements.len()
            invariant
                i <= self.database.measurements.len(),
                rows == self@.measurements,
                rows.len() == self.database.measurements.len(),
                selects_among(rows, criterion@, positions(picks@), i as int),
            decreases self.database.measurements.len() - i,
        {
            let row = &self.database.measurements[i];
            assert(rows[i as int] == row@);
            if criterion.fits(row) {
                let mut place: usize = picks.len();
                while place > 0
                    invariant
                        place <= picks.len(),
                        i < self.database.measurements.len(),
                        rows[i as int] == row@,
                        rows == self@.measurements,
                        rows.len() == self.database.measurements.len(),
                        selects_among(rows, criterion@, positions(picks@), i as int),
                        forall|k: int|
                            place <= k < picks.len() ==> !time_le(
                                rows[#[trigger] positions(picks@)[k]].measurement_date_time,
                                rows[i as int].measurement_date_time,
                            ),
                    ensures
                        place <= picks.len(),
                        forall|k: int|
                            place <= k < picks.len() ==> !time_le(
                                rows[#[trigger] positions(picks@)[k]].measurement_date_time,
                                rows[i as int].measurement_date_time,
                            ),
                        place > 0 ==> time_le(
                            rows[positions(picks@)[place - 1]].measurement_date_time,
                            rows[i as int].measurement_date_time,
                        ),
                    decreases place,
                {
                    let before = picks[place - 1];
                    assert(positions(picks@)[place - 1] == before);
                    assert(rows[before as int] == self.database.measurements[before as int]@);
                    if time_precedes(
                        &self.database.measurements[before].measurement_date_time,
                        &row.measurement_date_time,
                    ) {
                        break ;
                    }
                    place -= 1;
                }
                proof {
                    lemma_selection_takes(
                        rows,
                        criterion@,
                        positions(picks@),
                        i as int,
                        place as int,
                    );
                }
                let ghost earlier = positions(picks@);
                picks.insert(place, i);
                assert(positions(picks@) =~= earlier.insert(place as int, i as int));
            } else {
                proof {
                    lemma_selection_passes(rows, criterion@, positions(picks@), i as int);
                }
            }
            i += 1;
        }
        picks
    }

    /// The measurement at a position of the table, positions counting in
    /// the order in which the measurements were stored.
    pub fn measurement_at(&self, position: usize) -> (m: &MeasurementRecord)
        requires
            position < self@.measurements.len(),
        ensures
            m@ == self@.measurements[position as int],
    {
        &self.database.measurements[position]
    }

    /// Answers a query: every stored measurement that fits the criterion,
    /// ordered by measurement time, those without a time last.
    pub fn query(&self, criterion: &Criterion) -> (answer: Vec<&MeasurementRecord>)
        ensures
            answers(self@.measurements, criterion@, views(answer@)),
    {
        let picks = self.select(criterion);
        let ghost rows = self@.measurements;
        let ghost chosen = positions(picks@);
        let mut answer: Vec<&MeasurementRecord> = Vec::new();
        let mut k: usize = 0;
        while k < picks.len()
            invariant
                k <= picks.len(),
                answer.len() == k,
                rows == self@.measurements,
                chosen == positions(picks@),
                selects(rows, criterion@, chosen),
                forall|j: int| 0 <= j < k ==> (#[trigger] answer[j])@ == rows[chosen[j]],
            decreases picks.len() - k,
        {
            assert(0 <= chosen[k as int] < rows.len());
            answer.push(self.measurement_at(picks[k]));
            k += 1;
        }
        assert(views(answer@) =~= chosen.map_values(|p: int| rows[p]));
        answer
    }

    /// The measurements that refer to a node of the hierarchy.
    pub fn query_by_hierarchy(&self, kind: NodeKind, id: &str) -> (answer: Vec<
        &MeasurementRecord,
    >)
        ensures
            answers(
                self@.measurements,
                CriterionView::Node { kind, id: id@ },
                views(answer@),
            ),
    {
        self.query(&Criterion::Node { kind, id })
    }

    /// The measurements of a type.
    pub fn query_by_type(&self, measurement_type: &str) -> (answer: Vec<&MeasurementRecord>)
        ensures
            answers(
                self@.measurements,
                CriterionView::Type { measurement_type: measurement_type@ },
                views(answer@),
            ),
    {
        self.query(&Criterion::Type { measurement_type })
    }

    /// The measurements whose time lies between `start` and `end`, both
    /// included.
    pub fn query_by_time_range(&self, start: &str, end: &str) -> (answer: Vec<
        &MeasurementRecord,
    >)
        ensures
            answers(
                self@.measurements,
                CriterionView::Between { start: start@, end: end@ },
                views(answer@),
            ),
    {
        self.query(&Criterion::Between { start, end })
    }
}

} // verus!
