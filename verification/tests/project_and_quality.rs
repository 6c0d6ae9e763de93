use emc_locus::audit::AuditAction;
use emc_locus::identifiers::{AuditActor, AuditReason, ProjectCode};
use emc_locus::project::{can_transition, Project, ProjectRecord, ProjectStage};
use emc_locus::quality::{
    baseline_contract_review_items, required_contract_review_items, AuthorizedDeviation,
    ContractReviewChecklist, ContractReviewItem, ExecutionMode,
};
use emc_locus::DomainError;

fn code(value: &str) -> ProjectCode {
    ProjectCode::parse(value).unwrap()
}

fn actor(value: &str) -> AuditActor {
    AuditActor::parse(value).unwrap()
}

fn reason(value: &str) -> AuditReason {
    AuditReason::parse(value).unwrap()
}

fn record_at_contract_review() -> ProjectRecord {
    let project = Project::new(code("CEM-2026-001"), "  Atlas Avionique ").unwrap();
    let mut record = ProjectRecord::open(project, actor("alice"));
    record
        .advance_to(ProjectStage::ContractReview, actor("alice"), reason("devis accepté"))
        .unwrap();
    record
}

#[test]
fn identifiers_are_trimmed_and_checked() {
    assert_eq!(code("  CEM-2026-001 ").as_str(), "CEM-2026-001");
    assert_eq!(ProjectCode::parse("   "), Err(DomainError::EmptyProjectCode));
    assert_eq!(
        ProjectCode::parse(" CEM 2026 "),
        Err(DomainError::InvalidProjectCode("CEM 2026".to_owned()))
    );
    assert_eq!(AuditActor::parse(" "), Err(DomainError::EmptyAuditActor));
    assert_eq!(AuditReason::parse(""), Err(DomainError::EmptyAuditReason));
}

#[test]
fn project_starts_at_quotation_with_a_trimmed_customer() {
    let project = Project::new(code("CEM-1"), "  Atlas ").unwrap();
    assert_eq!(project.customer(), "Atlas");
    assert_eq!(project.stage(), ProjectStage::Quotation);
    assert_eq!(
        Project::new(code("CEM-1"), "   "),
        Err(DomainError::EmptyCustomerName)
    );
}

#[test]
fn stages_advance_one_step_at_a_time() {
    let order = [
        ProjectStage::Quotation,
        ProjectStage::ContractReview,
        ProjectStage::TestPlanning,
        ProjectStage::Measuring,
        ProjectStage::TechnicalReview,
        ProjectStage::ReportIssued,
        ProjectStage::Archived,
    ];
    for (i, from) in order.iter().enumerate() {
        for (j, to) in order.iter().enumerate() {
            assert_eq!(can_transition(*from, *to), j == i + 1);
        }
    }
    let mut project = Project::new(code("CEM-1"), "Atlas").unwrap();
    assert_eq!(
        project.advance_to(ProjectStage::Measuring),
        Err(DomainError::InvalidProjectTransition {
            from: ProjectStage::Quotation,
            to: ProjectStage::Measuring
        })
    );
    assert_eq!(project.stage(), ProjectStage::Quotation);
    assert_eq!(project.advance_to(ProjectStage::ContractReview), Ok(()));
    assert_eq!(project.stage(), ProjectStage::ContractReview);
}

#[test]
fn record_numbers_its_audit_events_from_one() {
    let record = record_at_contract_review();
    let events = record.audit_events();
    assert_eq!(events.len(), 2);
    assert_eq!(events[0].sequence(), 1);
    assert_eq!(events[0].action(), &AuditAction::ProjectCreated);
    assert_eq!(events[0].reason(), None);
    assert_eq!(events[1].sequence(), 2);
    assert_eq!(
        events[1].action(),
        &AuditAction::ProjectStageAdvanced {
            from: ProjectStage::Quotation,
            to: ProjectStage::ContractReview
        }
    );
    assert_eq!(events[1].reason().unwrap().as_str(), "devis accepté");
    assert_eq!(events[1].project().as_str(), "CEM-2026-001");
}

#[test]
fn refused_stage_change_leaves_the_record_unchanged() {
    let mut record = record_at_contract_review();
    let before = record.clone();
    assert_eq!(
        record
            .advance_to(ProjectStage::Archived, actor("bob"), reason("clôture"))
            .unwrap_err(),
        DomainError::InvalidProjectTransition {
            from: ProjectStage::ContractReview,
            to: ProjectStage::Archived
        }
    );
    assert_eq!(record, before);
}

#[test]
fn test_planning_needs_a_complete_review_or_an_authorized_deviation() {
    let mut record = record_at_contract_review();
    let mut checklist = ContractReviewChecklist::new(code("CEM-2026-001"));
    for item in baseline_contract_review_items() {
        if item != ContractReviewItem::DataRetentionAgreed {
            checklist.mark_complete(item);
        }
    }
    assert_eq!(
        record
            .advance_to_test_planning(&checklist, actor("alice"), reason("revue"), None)
            .unwrap_err(),
        DomainError::IncompleteContractReview {
            missing_items: vec![ContractReviewItem::DataRetentionAgreed]
        }
    );
    assert_eq!(record.audit_events().len(), 2);

    let deviation = AuthorizedDeviation::new(actor("quality-manager"), reason("accord client"));
    let event = record
        .advance_to_test_planning(&checklist, actor("alice"), reason("revue"), Some(deviation))
        .unwrap()
        .clone();
    assert_eq!(event.sequence(), 4);
    let events = record.audit_events();
    assert_eq!(events.len(), 4);
    assert_eq!(
        events[2].action(),
        &AuditAction::ContractReviewDeviationAuthorized {
            missing_items: vec![ContractReviewItem::DataRetentionAgreed]
        }
    );
    assert_eq!(events[2].actor().as_str(), "quality-manager");
    assert_eq!(record.project().stage(), ProjectStage::TestPlanning);
}

#[test]
fn checklist_of_another_project_is_refused() {
    let mut record = record_at_contract_review();
    let checklist = ContractReviewChecklist::new(code("CEM-2026-999"));
    assert_eq!(
        record
            .advance_to_test_planning_for_mode(
                &checklist,
                ExecutionMode::Investigation,
                actor("alice"),
                reason("revue"),
                None
            )
            .unwrap_err(),
        DomainError::ChecklistProjectMismatch {
            project: code("CEM-2026-001"),
            checklist_project: code("CEM-2026-999")
        }
    );
}

#[test]
fn investigation_needs_only_the_request_and_deviation_items() {
    assert_eq!(
        required_contract_review_items(ExecutionMode::Investigation),
        vec![
            ContractReviewItem::CustomerRequestDefined,
            ContractReviewItem::DeviationsRecorded
        ]
    );
    assert_eq!(
        required_contract_review_items(ExecutionMode::Accredited),
        baseline_contract_review_items()
    );
    let mut checklist = ContractReviewChecklist::new(code("CEM-1"));
    checklist.mark_complete(ContractReviewItem::DeviationsRecorded);
    checklist.mark_complete(ContractReviewItem::CustomerRequestDefined);
    checklist.mark_complete(ContractReviewItem::CustomerRequestDefined);
    assert_eq!(checklist.completed_items().len(), 2);
    assert!(checklist.is_complete_for_mode(ExecutionMode::Investigation));
    assert!(!checklist.is_complete());
    assert_eq!(
        checklist.missing_items_for_mode(ExecutionMode::NonAccredited),
        vec![
            ContractReviewItem::TestMethodSelected,
            ContractReviewItem::LaboratoryCapabilityConfirmed
        ]
    );

    let mut record = record_at_contract_review();
    let mut own = ContractReviewChecklist::new(code("CEM-2026-001"));
    own.mark_complete(ContractReviewItem::CustomerRequestDefined);
    own.mark_complete(ContractReviewItem::DeviationsRecorded);
    assert!(record
        .advance_to_test_planning_for_mode(
            &own,
            ExecutionMode::Investigation,
            actor("alice"),
            reason("investigation"),
            None
        )
        .is_ok());
    assert_eq!(record.audit_events().len(), 3);
}

#[test]
fn constraint_profiles_follow_the_execution_mode() {
    let accredited = ExecutionMode::Accredited.constraint_profile();
    assert!(accredited.stage_gates_required());
    assert!(accredited.valid_calibration_required());
    assert!(accredited.report_approval_required());
    assert!(!accredited.exploratory_steps_allowed());
    let non_accredited = ExecutionMode::NonAccredited.constraint_profile();
    assert!(non_accredited.controlled_method_required());
    assert!(!non_accredited.valid_calibration_required());
    assert!(!non_accredited.report_approval_required());
    let investigation = ExecutionMode::Investigation.constraint_profile();
    assert!(!investigation.stage_gates_required());
    assert!(investigation.exploratory_steps_allowed());
    assert!(investigation.deviations_allowed());
    assert_eq!(investigation.mode(), ExecutionMode::Investigation);
}
