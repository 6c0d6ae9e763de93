use emc_locus::datasets::{DatasetChecksum, DatasetFileReference};
use emc_locus::identifiers::{AuditActor, ProjectCode};
use emc_locus::quality::ExecutionMode;
use emc_locus::reporting::{
    ReportExportBundle, ReportExportFormat, ReportNumber, ReportPackage, ReportRevision,
    ReportStatus,
};
use emc_locus::DomainError;

fn package(mode: ExecutionMode) -> ReportPackage {
    ReportPackage::new(
        ProjectCode::parse("CEM-2026-001").unwrap(),
        ReportNumber::parse(" RAP-001 ").unwrap(),
        ReportRevision::parse("A").unwrap(),
        mode,
    )
}

fn actor(value: &str) -> AuditActor {
    AuditActor::parse(value).unwrap()
}

fn checksum() -> DatasetChecksum {
    DatasetChecksum::parse(&format!("sha256:{}", "a".repeat(64))).unwrap()
}

#[test]
fn report_numbers_and_revisions_are_trimmed_and_required() {
    assert_eq!(ReportNumber::parse(" RAP-001 ").unwrap().as_str(), "RAP-001");
    assert_eq!(ReportNumber::parse("  "), Err(DomainError::EmptyReportNumber));
    assert_eq!(ReportRevision::parse(""), Err(DomainError::EmptyReportRevision));
    assert_eq!(ReportStatus::TechnicallyReviewed.as_str(), "technically_reviewed");
}

#[test]
fn accredited_report_goes_through_review_approval_and_issue() {
    let mut report = package(ExecutionMode::Accredited);
    assert_eq!(report.status(), ReportStatus::Draft);
    assert_eq!(
        report.approve(actor("manager")),
        Err(DomainError::ReportTechnicalReviewRequired)
    );
    assert_eq!(report.issue(), Err(DomainError::ReportApprovalRequired));
    assert_eq!(report.submit_for_technical_review(), Ok(()));
    assert_eq!(
        report.submit_for_technical_review(),
        Err(DomainError::InvalidReportTransition {
            from: "technical_review".to_owned(),
            to: "technical_review".to_owned()
        })
    );
    assert_eq!(report.complete_technical_review(actor("technical-lead")), Ok(()));
    assert_eq!(report.reviewed_by().unwrap().as_str(), "technical-lead");
    assert_eq!(report.approve(actor("manager")), Ok(()));
    assert_eq!(report.approved_by().unwrap().as_str(), "manager");
    assert_eq!(report.issue(), Ok(()));
    assert_eq!(report.status(), ReportStatus::Issued);
    assert_eq!(
        report.issue(),
        Err(DomainError::ReportApprovalRequired)
    );
}

#[test]
fn investigation_report_may_be_issued_from_draft_but_not_twice() {
    let mut report = package(ExecutionMode::Investigation);
    assert_eq!(report.issue(), Ok(()));
    assert_eq!(report.reviewed_by(), None);
    assert_eq!(
        report.issue(),
        Err(DomainError::InvalidReportTransition {
            from: "issued".to_owned(),
            to: "issued".to_owned()
        })
    );
    assert_eq!(
        report.approve(actor("manager")),
        Err(DomainError::InvalidReportTransition {
            from: "issued".to_owned(),
            to: "approved".to_owned()
        })
    );
}

#[test]
fn only_issued_reports_are_exported_with_their_signatures() {
    let mut report = package(ExecutionMode::NonAccredited);
    let file = DatasetFileReference::parse(" exports/RAP-001-A.pdf ").unwrap();
    assert_eq!(
        ReportExportBundle::from_issued_report(&report, ReportExportFormat::Pdf, file.clone(), checksum()),
        Err(DomainError::ReportMustBeIssuedBeforeExport)
    );
    report.approve(actor("manager")).unwrap();
    report.issue().unwrap();
    let bundle =
        ReportExportBundle::from_issued_report(&report, ReportExportFormat::Pdf, file, checksum())
            .unwrap();
    assert_eq!(bundle.number().as_str(), "RAP-001");
    assert_eq!(bundle.revision().as_str(), "A");
    assert_eq!(bundle.format(), ReportExportFormat::Pdf);
    assert_eq!(bundle.file_reference().as_str(), "exports/RAP-001-A.pdf");
    assert_eq!(bundle.approved_by().unwrap().as_str(), "manager");
    assert_eq!(bundle.reviewed_by(), None);
    assert_eq!(bundle.project().as_str(), "CEM-2026-001");
}
