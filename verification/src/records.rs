//! The records the store holds: three levels of reference data and the
//! measurements that may point at them.

use vstd::prelude::*;
use crate::identity::{is_content_hash, ContentHash};
use crate::json::is_json_text;
use crate::payload::Payload;
use crate::text::optional_text;

verus! {

/// The three kinds of node in the asset hierarchy, root first.
#[derive(Clone, Copy, Debug, PartialEq, Eq, Structural)]
pub enum NodeKind {
    AdministrativeUnit,
    Workshop,
    Well,
}

/// The root of the hierarchy: an administrative unit, which owns workshops.
#[derive(Debug, PartialEq, Eq)]
pub struct AdministrativeUnit {
    pub id: String,
    /// The unit's stable identifier in the system it comes from.
    pub external_id: String,
    pub base_id: String,
    pub abbreviation: String,
    pub title: String,
}

/// A workshop, which belongs to one administrative unit and owns wells.
#[derive(Debug, PartialEq, Eq)]
pub struct Workshop {
    pub id: String,
    pub external_id: Option<String>,
    pub base_id: String,
    pub abbreviation: String,
    pub title: String,
    pub extended_title: String,
    pub administrative_unit_id: String,
}

/// A well, which belongs to one workshop.
#[derive(Debug, PartialEq, Eq)]
pub struct Well {
    pub id: String,
    pub external_id: Option<String>,
    pub base_id: String,
    /// The well's designation. Two wells may share one.
    pub number: String,
    pub workshop_id: String,
}

/// One device measurement. Its identity is the hash of its content. Each of
/// its three references into the hierarchy may be absent, and they need not
/// agree with each other.
#[derive(Debug, PartialEq, Eq)]
pub struct MeasurementRecord {
    pub id: ContentHash,
    pub creation_timestamp: String,
    pub source: Option<String>,
    pub measurement_type: Option<String>,
    pub operator: Option<String>,
    pub bush: Option<String>,
    pub type_human: Option<String>,
    pub administrative_unit_id: Option<String>,
    pub workshop_id: Option<String>,
    pub well_id: Option<String>,
    pub measurement_date_time: Option<String>,
    pub meta: Option<Payload>,
    pub device_meta: Option<Payload>,
    pub data_array: Option<Payload>,
}

/// A node of the hierarchy of any of the three kinds.
#[derive(Debug, PartialEq, Eq)]
pub enum HierarchyNode {
    AdministrativeUnit(AdministrativeUnit),
    Workshop(Workshop),
    Well(Well),
}

pub struct AdministrativeUnitView {
    pub id: Seq<char>,
    pub external_id: Seq<char>,
    pub base_id: Seq<char>,
    pub abbreviation: Seq<char>,
    pub title: Seq<char>,
}

pub struct WorkshopView {
    pub id: Seq<char>,
    pub external_id: Option<Seq<char>>,
    pub base_id: Seq<char>,
    pub abbreviation: Seq<char>,
    pub title: Seq<char>,
    pub extended_title: Seq<char>,
    pub administrative_unit_id: Seq<char>,
}

pub struct WellView {
    pub id: Seq<char>,
    pub external_id: Option<Seq<char>>,
    pub base_id: Seq<char>,
    pub number: Seq<char>,
    pub workshop_id: Seq<char>,
}

pub struct MeasurementView {
    pub id: Seq<char>,
    pub creation_timestamp: Seq<char>,
    pub source: Option<Seq<char>>,
    pub measurement_type: Option<Seq<char>>,
    pub operator: Option<Seq<char>>,
    pub bush: Option<Seq<char>>,
    pub type_human: Option<Seq<char>>,
    pub administrative_unit_id: Option<Seq<char>>,
    pub workshop_id: Option<Seq<char>>,
    pub well_id: Option<Seq<char>>,
    pub measurement_date_time: Option<Seq<char>>,
    pub meta: Option<Seq<char>>,
    pub device_meta: Option<Seq<char>>,
    pub data_array: Option<Seq<char>>,
}

pub enum HierarchyNodeView {
    AdministrativeUnit(AdministrativeUnitView),
    Workshop(WorkshopView),
    Well(WellView),
}

/// The text of an optional payload, if there is one.
pub open spec fn optional_payload(value: Option<Payload>) -> Option<Seq<char>> {
    match value {
        Some(payload) => Some(payload@),
        None => None,
    }
}

/// An optional payload is well-formed when it is absent or JSON text.
pub open spec fn payload_ok(payload: Option<Seq<char>>) -> bool {
    match payload {
        Some(text) => is_json_text(text),
        None => true,
    }
}

impl MeasurementView {
    /// The identity has the shape of a content hash and the payloads are
    /// well-formed. This holds of every measurement record in memory.
    pub open spec fn well_formed(self) -> bool {
        &&& is_content_hash(self.id)
        &&& payload_ok(self.meta)
        &&& payload_ok(self.device_meta)
        &&& payload_ok(self.data_array)
    }
}

impl View for AdministrativeUnit {
    type V = AdministrativeUnitView;

    open spec fn view(&self) -> AdministrativeUnitView {
        AdministrativeUnitView {
            id: self.id@,
            external_id: self.external_id@,
            base_id: self.base_id@,
            abbreviation: self.abbreviation@,
            title: self.title@,
        }
    }
}

impl View for Workshop {
    type V = WorkshopView;

    open spec fn view(&self) -> WorkshopView {
        WorkshopView {
            id: self.id@,
            external_id: optional_text(self.external_id),
            base_id: self.base_id@,
            abbreviation: self.abbreviation@,
            title: self.title@,
            extended_title: self.extended_title@,
            administrative_unit_id: self.administrative_unit_id@,
        }
    }
}

impl View for Well {
    type V = WellView;

    open spec fn view(&self) -> WellView {
        WellView {
            id: self.id@,
            external_id: optional_text(self.external_id),
            base_id: self.base_id@,
            number: self.number@,
            workshop_id: self.workshop_id@,
        }
    }
}

impl View for MeasurementRecord {
    type V = MeasurementView;

    open spec fn view(&self) -> MeasurementView {
        MeasurementView {
            id: self.id@,
            creation_timestamp: self.creation_timestamp@,
            source: optional_text(self.source),
            measurement_type: optional_text(self.measurement_type),
            operator: optional_text(self.operator),
            bush: optional_text(self.bush),
            type_human: optional_text(self.type_human),
            administrative_unit_id: optional_text(self.administrative_unit_id),
            workshop_id: optional_text(self.workshop_id),
            well_id: optional_text(self.well_id),
            measurement_date_time: optional_text(self.measurement_date_time),
            meta: optional_payload(self.meta),
            device_meta: optional_payload(self.device_meta),
            data_array: optional_payload(self.data_array),
        }
    }
}

impl View for HierarchyNode {
    type V = HierarchyNodeView;

    open spec fn view(&self) -> HierarchyNodeView {
        match self {
            HierarchyNode::AdministrativeUnit(unit) => HierarchyNodeView::AdministrativeUnit(
                unit@,
            ),
            HierarchyNode::Workshop(workshop) => HierarchyNodeView::Workshop(workshop@),
            HierarchyNode::Well(well) => HierarchyNodeView::Well(well@),
        }
    }
}

fn copy_of_text(value: &Option<String>) -> (r: Option<String>)
    ensures
        optional_text(r) == optional_text(*value),
{
    match value {
        Some(text) => Some(text.clone()),
        None => None,
    }
}

fn copy_of_payload(value: &Option<Payload>) -> (r: Option<Payload>)
    ensures
        optional_payload(r) == optional_payload(*value),
{
    match value {
        Some(payload) => Some(payload.clone()),
        None => None,
    }
}

fn attest_payload(payload: &Option<Payload>)
    ensures
        payload_ok(optional_payload(*payload)),
{
    match payload {
        Some(held) => {
            let _ = held.as_str();
        },
        None => {},
    }
}

impl MeasurementRecord {
    /// Recalls what the types of the fields guarantee: the identity has the
    /// shape of a content hash and the payloads are well-formed. Does
    /// nothing when the program runs.
    pub fn attest(&self)
        ensures
            self@.well_formed(),
    {
        let _ = self.id.as_str();
        attest_payload(&self.meta);
        attest_payload(&self.device_meta);
        attest_payload(&self.data_array);
    }
}

impl Clone for AdministrativeUnit {
    fn clone(&self) -> (r: AdministrativeUnit)
        ensures
            r@ == self@,
    {
        AdministrativeUnit {
            id: self.id.clone(),
            external_id: self.external_id.clone(),
            base_id: self.base_id.clone(),
            abbreviation: self.abbreviation.clone(),
            title: self.title.clone(),
        }
    }
}

impl Clone for Workshop {
    fn clone(&self) -> (r: Workshop)
        ensures
            r@ == self@,
    {
        Workshop {
            id: self.id.clone(),
            external_id: copy_of_text(&self.external_id),
            base_id: self.base_id.clone(),
            abbreviation: self.abbreviation.clone(),
            title: self.title.clone(),
            extended_title: self.extended_title.clone(),
            administrative_unit_id: self.administrative_unit_id.clone(),
        }
    }
}

impl Clone for Well {
    fn clone(&self) -> (r: Well)
        ensures
            r@ == self@,
    {
        Well {
            id: self.id.clone(),
            external_id: copy_of_text(&self.external_id),
            base_id: self.base_id.clone(),
            number: self.number.clone(),
            workshop_id: self.workshop_id.clone(),
        }
    }
}

impl Clone for MeasurementRecord {
    fn clone(&self) -> (r: MeasurementRecord)
        ensures
            r@ == self@,
    {
        MeasurementRecord {
            id: self.id.clone(),
            creation_timestamp: self.creation_timestamp.clone(),
            source: copy_of_text(&self.source),
            measurement_type: copy_of_text(&self.measurement_type),
            operator: copy_of_text(&self.operator),
            bush: copy_of_text(&self.bush),
            type_human: copy_of_text(&self.type_human),
            administrative_unit_id: copy_of_text(&self.administrative_unit_id),
            workshop_id: copy_of_text(&self.workshop_id),
            well_id: copy_of_text(&self.well_id),
            measurement_date_time: copy_of_text(&self.measurement_date_time),
            meta: copy_of_payload(&self.meta),
            device_meta: copy_of_payload(&self.device_meta),
            data_array: copy_of_payload(&self.data_array),
        }
    }
}

} // verus!
