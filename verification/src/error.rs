//! What the store reports when it turns a request down.

use vstd::prelude::*;
use crate::records::NodeKind;

verus! {

/// Why a write or a start-up was refused. A lookup that finds nothing is
/// not among these: it answers `None`.
#[derive(Debug, PartialEq, Eq)]
pub enum StoreError {
    /// A hierarchy node with this identity is already stored.
    DuplicateIdentity { kind: NodeKind, id: String },
    /// The node of this kind and identity, which the record refers to, is
    /// not stored.
    DanglingReference { kind: NodeKind, id: String },
    /// The script of the migration with this version could not be run. The
    /// database must not be used until that is resolved.
    MigrationFailure { version: u64 },
    /// A payload is not well-formed structured text.
    MalformedPayload,
}

pub enum StoreErrorView {
    DuplicateIdentity { kind: NodeKind, id: Seq<char> },
    DanglingReference { kind: NodeKind, id: Seq<char> },
    MigrationFailure { version: u64 },
    MalformedPayload,
}

impl View for StoreError {
    type V = StoreErrorView;

    open spec fn view(&self) -> StoreErrorView {
        match self {
            StoreError::DuplicateIdentity { kind, id } => StoreErrorView::DuplicateIdentity {
                kind: *kind,
                id: id@,
            },
            StoreError::DanglingReference { kind, id } => StoreErrorView::DanglingReference {
                kind: *kind,
                id: id@,
            },
            StoreError::MigrationFailure { version } => StoreErrorView::MigrationFailure {
                version: *version,
            },
            StoreError::MalformedPayload => StoreErrorView::MalformedPayload,
        }
    }
}

} // verus!
