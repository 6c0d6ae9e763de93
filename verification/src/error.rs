//! The error type of the domain core.

use crate::identifiers::ProjectCode;
use crate::project::ProjectStage;
use crate::quality::ContractReviewItem;
use vstd::prelude::*;

verus! {

/// A rejected domain operation, with the values that explain why.
#[derive(Clone, Debug, PartialEq, Eq)]
pub enum DomainError {
    EmptyProjectCode,
    InvalidProjectCode(String),
    EmptyAuditActor,
    EmptyAuditReason,
    EmptyCustomerName,
    InvalidProjectTransition { from: ProjectStage, to: ProjectStage },
    ChecklistProjectMismatch { project: ProjectCode, checklist_project: ProjectCode },
    IncompleteContractReview { missing_items: Vec<ContractReviewItem> },
    EmptyReportNumber,
    EmptyReportRevision,
    InvalidReportTransition { from: String, to: String },
    ReportTechnicalReviewRequired,
    ReportApprovalRequired,
    ReportMustBeIssuedBeforeExport,
    EmptyDatasetFileReference,
    EmptyDatasetReference,
    InvalidDatasetReference(String),
    InvalidDatasetChecksum(String),
    EmptyRepositorySnapshotId,
    InvalidRepositorySnapshotId(String),
    EmptySyncConflictId,
    InvalidSyncConflictId(String),
    SyncConflictAlreadyResolved(String),
    EmptySnapshotChecksum,
    InvalidRepositorySchemaVersion(u32),
    DuplicateRepositorySnapshot(String),
    MissingRepositorySnapshot(String),
    UnsignedRepositorySnapshot(String),
    IncompatibleRepositorySnapshot {
        domain: String,
        minimum_schema_version: u32,
        actual_schema_version: u32,
    },
    InvalidMetrologyDate { year: u16, month: u8, day: u8 },
    EmptyInstrumentCode,
    InvalidInstrumentCode(String),
    EmptyInstrumentManufacturer,
    EmptyInstrumentModel,
    EmptyInstrumentSerialNumber,
    InvalidCalibrationPeriod,
    EmptyCalibrationCertificate,
    EmptyCalibrationProvider,
    DuplicateInstrumentCode(String),
    UnknownInstrumentCode(String),
    EmptySignalReference,
    InvalidSignalReference(String),
    EmptyProcessingGraphReference,
    InvalidProcessingGraphReference(String),
    EmptyProcessingGraphRevision,
    EmptySignalUnit,
    InvalidSampleRateHz(u32),
    EmptySignalDataset,
    EmptyProcessingNodeInputs,
    DuplicateProcessingNode(String),
    UnknownSignalReference(String),
    EmptyProcessingGraphDefinition(String),
    EmptyProcessingGraphSoftwareVersion,
    InvalidProcessingGraphArtifactKind(String),
    EmptySignalSamples(String),
    InvalidResamplingFactor(usize),
    SignalSampleRateMismatch { left_hz: u32, right_hz: u32 },
    SignalSampleCountMismatch { left_count: usize, right_count: usize },
}

} // verus!
