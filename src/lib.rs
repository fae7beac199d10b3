//! A traceability ledger for pharmaceutical units: an entity registry, an
//! append-only event log per entity, and verification queries over both.
pub mod laws;
pub mod ledger;
pub mod model;
pub mod types;

pub use ledger::DrugTraceability;
pub use types::{
    EventKind, LedgerError, MedicationData, RecallPolicy, Status, TrackingEvent, VerificationResult,
    VerificationStats,
};
