//! Test reports: numbering, the review and approval workflow that the
//! execution mode imposes, and the export of issued reports.

use crate::datasets::{DatasetChecksum, DatasetFileReference};
use crate::error::DomainError;
use crate::identifiers::{AuditActor, ProjectCode};
use crate::quality::{profile_of, ExecutionMode};
use crate::text::{trim, trim_seq};
use vstd::prelude::*;

verus! {

/// The number of a test report, such as `RPT-2026-001`.
#[derive(Clone, Debug, PartialEq, Eq)]
pub struct ReportNumber(String);

impl View for ReportNumber {
    type V = Seq<char>;

    closed spec fn view(&self) -> Seq<char> {
        self.0@
    }
}

impl ReportNumber {
    /// Trims the value; it must then be non-empty.
    pub fn parse(value: &str) -> (r: Result<Self, DomainError>)
        ensures
            trim_seq(value@).len() == 0 ==> r == Err::<Self, DomainError>(
                DomainError::EmptyReportNumber,
            ),
            trim_seq(value@).len() > 0 ==> (r matches Ok(n) && n@ == trim_seq(value@)),
    {
        let trimmed = trim(value);
        if trimmed.as_str().is_empty() {
            return Err(DomainError::EmptyReportNumber);
        }
        Ok(ReportNumber(trimmed))
    }

    pub fn as_str(&self) -> (r: &str)
        ensures
            r@ == self@,
    {
        self.0.as_str()
    }

    /// A copy of the number.
    pub fn duplicate(&self) -> (r: Self)
        ensures
            r@ == self@,
    {
        ReportNumber(self.0.clone())
    }
}

/// The revision of a test report, such as `A`.
#[derive(Clone, Debug, PartialEq, Eq)]
pub struct ReportRevision(String);

impl View for ReportRevision {
    type V = Seq<char>;

    closed spec fn view(&self) -> Seq<char> {
        self.0@
    }
}

impl ReportRevision {
    /// Trims the value; it must then be non-empty.
    pub fn parse(value: &str) -> (r: Result<Self, DomainError>)
        ensures
            trim_seq(value@).len() == 0 ==> r == Err::<Self, DomainError>(
                DomainError::EmptyReportRevision,
            ),
            trim_seq(value@).len() > 0 ==> (r matches Ok(n) && n@ == trim_seq(value@)),
    {
        let trimmed = trim(value);
        if trimmed.as_str().is_empty() {
            return Err(DomainError::EmptyReportRevision);
        }
        Ok(ReportRevision(trimmed))
    }

    pub fn as_str(&self) -> (r: &str)
        ensures
            r@ == self@,
    {
        self.0.as_str()
    }

    /// A copy of the revision.
    pub fn duplicate(&self) -> (r: Self)
        ensures
            r@ == self@,
    {
        ReportRevision(self.0.clone())
    }
}

#[derive(Clone, Copy, Debug, PartialEq, Eq, Structural)]
pub enum ReportStatus {
    Draft,
    TechnicalReview,
    TechnicallyReviewed,
    Approved,
    Issued,
    Voided,
}

impl ReportStatus {
    pub open spec fn label(self) -> Seq<char> {
        match self {
            ReportStatus::Draft => "draft"@,
            ReportStatus::TechnicalReview => "technical_review"@,
            ReportStatus::TechnicallyReviewed => "technically_reviewed"@,
            ReportStatus::Approved => "approved"@,
            ReportStatus::Issued => "issued"@,
            ReportStatus::Voided => "voided"@,
        }
    }

    pub fn as_str(self) -> (r: &'static str)
        ensures
            r@ == self.label(),
    {
        match self {
            ReportStatus::Draft => "draft",
            ReportStatus::TechnicalReview => "technical_review",
            ReportStatus::TechnicallyReviewed => "technically_reviewed",
            ReportStatus::Approved => "approved",
            ReportStatus::Issued => "issued",
            ReportStatus::Voided => "voided",
        }
    }
}

#[derive(Clone, Copy, Debug, PartialEq, Eq, Structural)]
pub enum ReportExportFormat {
    Pdf,
    Docx,
    Zip,
    Json,
}

pub open spec fn actor_view(a: Option<AuditActor>) -> Option<Seq<char>> {
    match a {
        Some(x) => Some(x@),
        None => None,
    }
}

fn copy_actor(a: &Option<AuditActor>) -> (r: Option<AuditActor>)
    ensures
        actor_view(r) == actor_view(*a),
{
    match a {
        Some(x) => Some(x.duplicate()),
        None => None,
    }
}

fn actor_ref(a: &Option<AuditActor>) -> (r: Option<&AuditActor>)
    ensures
        match r {
            Some(x) => actor_view(*a) == Some(x@),
            None => a is None,
        },
{
    match a {
        Some(x) => Some(x),
        None => None,
    }
}

pub struct ReportView {
    pub project: Seq<char>,
    pub number: Seq<char>,
    pub revision: Seq<char>,
    pub mode: ExecutionMode,
    pub status: ReportStatus,
    pub reviewed_by: Option<Seq<char>>,
    pub approved_by: Option<Seq<char>>,
}

/// The sign-offs a report carries for its status: a technically reviewed report names
/// who reviewed it, an approved one who approved it, and an accredited report is
/// approved or issued only after both.
pub open spec fn report_well_formed(v: ReportView) -> bool {
    &&& v.status == ReportStatus::TechnicallyReviewed ==> v.reviewed_by is Some
    &&& v.status == ReportStatus::Approved ==> v.approved_by is Some
    &&& profile_of(v.mode).report_approval_required && (v.status == ReportStatus::Approved
        || v.status == ReportStatus::Issued) ==> v.reviewed_by is Some && v.approved_by is Some
}

/// The refusal of a move from the current status to `to`.
pub open spec fn is_transition_error(e: DomainError, from: ReportStatus, to: ReportStatus) -> bool {
    e matches DomainError::InvalidReportTransition { from: f, to: t } && f@ == from.label() && t@
        == to.label()
}

/// A test report and its review workflow.
#[derive(Clone, Debug, PartialEq, Eq)]
pub struct ReportPackage {
    project: ProjectCode,
    number: ReportNumber,
    revision: ReportRevision,
    mode: ExecutionMode,
    status: ReportStatus,
    reviewed_by: Option<AuditActor>,
    approved_by: Option<AuditActor>,
}

impl View for ReportPackage {
    type V = ReportView;

    closed spec fn view(&self) -> ReportView {
        ReportView {
            project: self.project@,
            number: self.number@,
            revision: self.revision@,
            mode: self.mode,
            status: self.status,
            reviewed_by: actor_view(self.reviewed_by),
            approved_by: actor_view(self.approved_by),
        }
    }
}

impl ReportPackage {
    /// A new draft, neither reviewed nor approved.
    pub fn new(
        project: ProjectCode,
        number: ReportNumber,
        revision: ReportRevision,
        mode: ExecutionMode,
    ) -> (r: Self)
        ensures
            r@ == (ReportView {
                project: project@,
                number: number@,
                revision: revision@,
                mode,
                status: ReportStatus::Draft,
                reviewed_by: None,
                approved_by: None,
            }),
            report_well_formed(r@),
    {
        ReportPackage {
            project,
            number,
            revision,
            mode,
            status: ReportStatus::Draft,
            reviewed_by: None,
            approved_by: None,
        }
    }

    pub fn project(&self) -> (r: &ProjectCode)
        ensures
            r@ == self@.project,
    {
        &self.project
    }

    pub fn number(&self) -> (r: &ReportNumber)
        ensures
            r@ == self@.number,
    {
        &self.number
    }

    pub fn revision(&self) -> (r: &ReportRevision)
        ensures
            r@ == self@.revision,
    {
        &self.revision
    }

    pub fn mode(&self) -> (r: ExecutionMode)
        ensures
            r == self@.mode,
    {
        self.mode
    }

    pub fn status(&self) -> (r: ReportStatus)
        ensures
            r == self@.status,
    {
        self.status
    }

    pub fn reviewed_by(&self) -> (r: Option<&AuditActor>)
        ensures
            match r {
                Some(x) => self@.reviewed_by == Some(x@),
                None => self@.reviewed_by is None,
            },
    {
        actor_ref(&self.reviewed_by)
    }

    pub fn approved_by(&self) -> (r: Option<&AuditActor>)
        ensures
            match r {
                Some(x) => self@.approved_by == Some(x@),
                None => self@.approved_by is None,
            },
    {
        actor_ref(&self.approved_by)
    }

    /// Draft to technical review.
    pub fn submit_for_technical_review(&mut self) -> (r: Result<(), DomainError>)
        ensures
            old(self)@.status == ReportStatus::Draft ==> r is Ok && final(self)@ == (ReportView {
                status: ReportStatus::TechnicalReview,
                ..old(self)@
            }),
            old(self)@.status != ReportStatus::Draft ==> (r matches Err(e) && is_transition_error(
                e,
                old(self)@.status,
                ReportStatus::TechnicalReview,
            )) && final(self)@ == old(self)@,
            report_well_formed(old(self)@) ==> report_well_formed(final(self)@),
    {
        self.transition(ReportStatus::Draft, ReportStatus::TechnicalReview)
    }

    /// Technical review to technically reviewed, recording who reviewed the report.
    pub fn complete_technical_review(&mut self, reviewer: AuditActor) -> (r: Result<
        (),
        DomainError,
    >)
        ensures
            old(self)@.status == ReportStatus::TechnicalReview ==> r is Ok && final(self)@ == (
            ReportView {
                status: ReportStatus::TechnicallyReviewed,
                reviewed_by: Some(reviewer@),
                ..old(self)@
            }),
            old(self)@.status != ReportStatus::TechnicalReview ==> (r matches Err(e)
                && is_transition_error(e, old(self)@.status, ReportStatus::TechnicallyReviewed))
                && final(self)@ == old(self)@,
            report_well_formed(old(self)@) ==> report_well_formed(final(self)@),
    {
        match self.transition(ReportStatus::TechnicalReview, ReportStatus::TechnicallyReviewed) {
            Ok(()) => {},
            Err(e) => {
                return Err(e);
            },
        }
        self.reviewed_by = Some(reviewer);
        Ok(())
    }

    /// Approves the report, recording the approver. Where the mode requires approval, the
    /// report must be technically reviewed; an issued or voided report cannot be approved.
    pub fn approve(&mut self, approver: AuditActor) -> (r: Result<(), DomainError>)
        ensures
            profile_of(old(self)@.mode).report_approval_required && old(self)@.status
                != ReportStatus::TechnicallyReviewed ==> r == Err::<(), DomainError>(
                DomainError::ReportTechnicalReviewRequired,
            ) && final(self)@ == old(self)@,
            !(profile_of(old(self)@.mode).report_approval_required && old(self)@.status
                != ReportStatus::TechnicallyReviewed) && (old(self)@.status == ReportStatus::Issued
                || old(self)@.status == ReportStatus::Voided) ==> (r matches Err(e)
                && is_transition_error(e, old(self)@.status, ReportStatus::Approved)) && final(self)@ == old(self)@,
            !(profile_of(old(self)@.mode).report_approval_required && old(self)@.status
                != ReportStatus::TechnicallyReviewed) && !(old(self)@.status == ReportStatus::Issued
                || old(self)@.status == ReportStatus::Voided) ==> r is Ok && final(self)@ == (
            ReportView {
                status: ReportStatus::Approved,
                approved_by: Some(approver@),
                ..old(self)@
            }),
            report_well_formed(old(self)@) ==> report_well_formed(final(self)@),
    {
        if self.mode.constraint_profile().report_approval_required() && self.status
            != ReportStatus::TechnicallyReviewed {
            return Err(DomainError::ReportTechnicalReviewRequired);
        }
        if self.status == ReportStatus::Issued || self.status == ReportStatus::Voided {
            return Err(
                DomainError::InvalidReportTransition {
                    from: self.status.as_str().to_owned(),
                    to: ReportStatus::Approved.as_str().to_owned(),
                },
            );
        }
        self.status = ReportStatus::Approved;
        self.approved_by = Some(approver);
        Ok(())
    }

    /// Issues the report. Where the mode requires approval, the report must be approved;
    /// an issued or voided report cannot be issued again.
    pub fn issue(&mut self) -> (r: Result<(), DomainError>)
        ensures
            profile_of(old(self)@.mode).report_approval_required && old(self)@.status
                != ReportStatus::Approved ==> r == Err::<(), DomainError>(
                DomainError::ReportApprovalRequired,
            ) && final(self)@ == old(self)@,
            !(profile_of(old(self)@.mode).report_approval_required && old(self)@.status
                != ReportStatus::Approved) && (old(self)@.status == ReportStatus::Issued || old(self)@.status == ReportStatus::Voided) ==> (r matches Err(e) && is_transition_error(
                e,
                old(self)@.status,
                ReportStatus::Issued,
            )) && final(self)@ == old(self)@,
            !(profile_of(old(self)@.mode).report_approval_required && old(self)@.status
                != ReportStatus::Approved) && !(old(self)@.status == ReportStatus::Issued || old(self)@.status == ReportStatus::Voided) ==> r is Ok && final(self)@ == (ReportView {
                status: ReportStatus::Issued,
                ..old(self)@
            }),
            report_well_formed(old(self)@) ==> report_well_formed(final(self)@),
    {
        if self.mode.constraint_profile().report_approval_required() && self.status
            != ReportStatus::Approved {
            return Err(DomainError::ReportApprovalRequired);
        }
        if self.status == ReportStatus::Issued || self.status == ReportStatus::Voided {
            return Err(
                DomainError::InvalidReportTransition {
                    from: self.status.as_str().to_owned(),
                    to: ReportStatus::Issued.as_str().to_owned(),
                },
            );
        }
        self.status = ReportStatus::Issued;
        Ok(())
    }

    fn transition(&mut self, from: ReportStatus, to: ReportStatus) -> (r: Result<(), DomainError>)
        ensures
            old(self)@.status == from ==> r is Ok && final(self)@ == (ReportView {
                status: to,
                ..old(self)@
            }),
            old(self)@.status != from ==> (r matches Err(e) && is_transition_error(
                e,
                old(self)@.status,
                to,
            )) && final(self)@ == old(self)@,
    {
        if self.status != from {
            return Err(
                DomainError::InvalidReportTransition {
                    from: self.status.as_str().to_owned(),
                    to: to.as_str().to_owned(),
                },
            );
        }
        self.status = to;
        Ok(())
    }
}

pub struct ExportView {
    pub project: Seq<char>,
    pub number: Seq<char>,
    pub revision: Seq<char>,
    pub format: ReportExportFormat,
    pub file_reference: Seq<char>,
    pub checksum: Seq<char>,
    pub reviewed_by: Option<Seq<char>>,
    pub approved_by: Option<Seq<char>>,
}

/// An exported file of an issued report, with its checksum and sign-offs.
#[derive(Clone, Debug, PartialEq, Eq)]
pub struct ReportExportBundle {
    project: ProjectCode,
    number: ReportNumber,
    revision: ReportRevision,
    format: ReportExportFormat,
    file_reference: DatasetFileReference,
    checksum: DatasetChecksum,
    reviewed_by: Option<AuditActor>,
    approved_by: Option<AuditActor>,
}

impl View for ReportExportBundle {
    type V = ExportView;

    closed spec fn view(&self) -> ExportView {
        ExportView {
            project: self.project@,
            number: self.number@,
            revision: self.revision@,
            format: self.format,
            file_reference: self.file_reference@,
            checksum: self.checksum@,
            reviewed_by: actor_view(self.reviewed_by),
            approved_by: actor_view(self.approved_by),
        }
    }
}

impl ReportExportBundle {
    /// Exports an issued report; any other status is refused.
    pub fn from_issued_report(
        report: &ReportPackage,
        format: ReportExportFormat,
        file_reference: DatasetFileReference,
        checksum: DatasetChecksum,
    ) -> (r: Result<Self, DomainError>)
        ensures
            report@.status != ReportStatus::Issued ==> r == Err::<Self, DomainError>(
                DomainError::ReportMustBeIssuedBeforeExport,
            ),
            report@.status == ReportStatus::Issued ==> (r matches Ok(b) && b@ == (ExportView {
                project: report@.project,
                number: report@.number,
                revision: report@.revision,
                format,
                file_reference: file_reference@,
                checksum: checksum@,
                reviewed_by: report@.reviewed_by,
                approved_by: report@.approved_by,
            })),
    {
        if report.status() != ReportStatus::Issued {
            return Err(DomainError::ReportMustBeIssuedBeforeExport);
        }
        Ok(
            ReportExportBundle {
                project: report.project().duplicate(),
                number: report.number().duplicate(),
                revision: report.revision().duplicate(),
                format,
                file_reference,
                checksum,
                reviewed_by: copy_actor(&report.reviewed_by),
                approved_by: copy_actor(&report.approved_by),
            },
        )
    }

    pub fn project(&self) -> (r: &ProjectCode)
        ensures
            r@ == self@.project,
    {
        &self.project
    }

    pub fn number(&self) -> (r: &ReportNumber)
        ensures
            r@ == self@.number,
    {
        &self.number
    }

    pub fn revision(&self) -> (r: &ReportRevision)
        ensures
            r@ == self@.revision,
    {
        &self.revision
    }

    pub fn format(&self) -> (r: ReportExportFormat)
        ensures
            r == self@.format,
    {
        self.format
    }

    pub fn file_reference(&self) -> (r: &DatasetFileReference)
        ensures
            r@ == self@.file_reference,
    {
        &self.file_reference
    }

    pub fn checksum(&self) -> (r: &DatasetChecksum)
        ensures
            r@ == self@.checksum,
    {
        &self.checksum
    }

    pub fn reviewed_by(&self) -> (r: Option<&AuditActor>)
        ensures
            match r {
                Some(x) => self@.reviewed_by == Some(x@),
                None => self@.reviewed_by is None,
            },
    {
        actor_ref(&self.reviewed_by)
    }

    pub fn approved_by(&self) -> (r: Option<&AuditActor>)
        ensures
            match r {
                Some(x) => self@.approved_by == Some(x@),
                None => self@.approved_by is None,
            },
    {
        actor_ref(&self.approved_by)
    }
}

/// An accredited report reaches the customer only after technical review and approval:
/// an issued accredited report names both who reviewed it and who approved it.
pub proof fn lemma_accredited_issue_is_signed_off(report: ReportView)
    requires
        report_well_formed(report),
        report.mode == ExecutionMode::Accredited,
        report.status == ReportStatus::Issued,
    ensures
        report.reviewed_by is Some,
        report.approved_by is Some,
{
}

} // verus!
