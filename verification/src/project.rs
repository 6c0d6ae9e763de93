//! Projects (measurement campaigns), their stage lifecycle and the audit
//! trail that records every stage change.

use crate::audit::{AuditAction, AuditActionView, AuditEvent, AuditEventView, reason_view};
use crate::error::DomainError;
use crate::identifiers::{AuditActor, AuditReason, ProjectCode};
use crate::quality::{
    AuthorizedDeviation, ContractReviewChecklist, ContractReviewItem, ExecutionMode, missing_from,
    required_items,
};
use crate::text::{trim, trim_seq};
use vstd::prelude::*;

verus! {

#[derive(Clone, Copy, Debug, PartialEq, Eq, Structural)]
pub enum ProjectStage {
    Quotation,
    ContractReview,
    TestPlanning,
    Measuring,
    TechnicalReview,
    ReportIssued,
    Archived,
}

/// A project moves one stage forward at a time, from quotation to archive.
pub open spec fn valid_transition(from: ProjectStage, to: ProjectStage) -> bool {
    ||| from == ProjectStage::Quotation && to == ProjectStage::ContractReview
    ||| from == ProjectStage::ContractReview && to == ProjectStage::TestPlanning
    ||| from == ProjectStage::TestPlanning && to == ProjectStage::Measuring
    ||| from == ProjectStage::Measuring && to == ProjectStage::TechnicalReview
    ||| from == ProjectStage::TechnicalReview && to == ProjectStage::ReportIssued
    ||| from == ProjectStage::ReportIssued && to == ProjectStage::Archived
}

pub fn can_transition(from: ProjectStage, to: ProjectStage) -> (b: bool)
    ensures
        b == valid_transition(from, to),
{
    match (from, to) {
        (ProjectStage::Quotation, ProjectStage::ContractReview) => true,
        (ProjectStage::ContractReview, ProjectStage::TestPlanning) => true,
        (ProjectStage::TestPlanning, ProjectStage::Measuring) => true,
        (ProjectStage::Measuring, ProjectStage::TechnicalReview) => true,
        (ProjectStage::TechnicalReview, ProjectStage::ReportIssued) => true,
        (ProjectStage::ReportIssued, ProjectStage::Archived) => true,
        _ => false,
    }
}

/// A customer project with its current lifecycle stage.
#[derive(Clone, Debug, PartialEq, Eq)]
pub struct Project {
    code: ProjectCode,
    customer: String,
    stage: ProjectStage,
}

pub struct ProjectView {
    pub code: Seq<char>,
    pub customer: Seq<char>,
    pub stage: ProjectStage,
}

impl View for Project {
    type V = ProjectView;

    closed spec fn view(&self) -> ProjectView {
        ProjectView { code: self.code@, customer: self.customer@, stage: self.stage }
    }
}

impl Project {
    /// A new project starts at quotation; its customer name is trimmed and must not be empty.
    pub fn new(code: ProjectCode, customer: &str) -> (r: Result<Self, DomainError>)
        ensures
            trim_seq(customer@).len() == 0 ==> r == Err::<Self, DomainError>(
                DomainError::EmptyCustomerName,
            ),
            trim_seq(customer@).len() > 0 ==> (r matches Ok(p) && p@ == (ProjectView {
                code: code@,
                customer: trim_seq(customer@),
                stage: ProjectStage::Quotation,
            })),
    {
        let customer = trim(customer);
        if customer.as_str().is_empty() {
            return Err(DomainError::EmptyCustomerName);
        }
        Ok(Project { code, customer, stage: ProjectStage::Quotation })
    }

    pub fn code(&self) -> (r: &ProjectCode)
        ensures
            r@ == self@.code,
    {
        &self.code
    }

    pub fn customer(&self) -> (r: &str)
        ensures
            r@ == self@.customer,
    {
        self.customer.as_str()
    }

    pub fn stage(&self) -> (r: ProjectStage)
        ensures
            r == self@.stage,
    {
        self.stage
    }

    /// Moves to `next` when that is the next stage; otherwise nothing changes.
    pub fn advance_to(&mut self, next: ProjectStage) -> (r: Result<(), DomainError>)
        ensures
            valid_transition(old(self)@.stage, next) ==> r is Ok && final(self)@ == (ProjectView {
                stage: next,
                ..old(self)@
            }),
            !valid_transition(old(self)@.stage, next) ==> r == Err::<(), DomainError>(
                DomainError::InvalidProjectTransition { from: old(self)@.stage, to: next },
            ) && final(self)@ == old(self)@,
    {
        if can_transition(self.stage, next) {
            self.stage = next;
            Ok(())
        } else {
            Err(DomainError::InvalidProjectTransition { from: self.stage, to: next })
        }
    }
}

/// A project together with its numbered audit trail.
#[derive(Clone, Debug, PartialEq, Eq)]
pub struct ProjectRecord {
    project: Project,
    audit_events: Vec<AuditEvent>,
    next_audit_sequence: u64,
}

pub struct ProjectRecordView {
    pub project: ProjectView,
    pub events: Seq<AuditEventView>,
    pub next_audit_sequence: u64,
}

impl View for ProjectRecord {
    type V = ProjectRecordView;

    closed spec fn view(&self) -> ProjectRecordView {
        ProjectRecordView {
            project: self.project@,
            events: self.audit_events@.map_values(|e: AuditEvent| e@),
            next_audit_sequence: self.next_audit_sequence,
        }
    }
}

/// The audit trail of a record is numbered 1, 2, 3, ... without gaps, the next
/// number follows the last one, and every event belongs to the record's project.
pub open spec fn audit_trail_well_formed(v: ProjectRecordView) -> bool {
    &&& v.events.len() >= 1
    &&& v.next_audit_sequence == v.events.len() + 1
    &&& forall|i: int| 0 <= i < v.events.len() ==> (#[trigger] v.events[i]).sequence == i + 1
    &&& forall|i: int| 0 <= i < v.events.len() ==> (#[trigger] v.events[i]).project == v.project.code
}

/// The event that records a stage change.
pub open spec fn stage_event(
    sequence: int,
    actor: Seq<char>,
    project: Seq<char>,
    from: ProjectStage,
    to: ProjectStage,
    reason: Seq<char>,
) -> AuditEventView {
    AuditEventView {
        sequence: sequence as u64,
        actor,
        project,
        action: AuditActionView::ProjectStageAdvanced { from, to },
        reason: Some(reason),
    }
}

impl ProjectRecord {
    pub open spec fn well_formed(&self) -> bool {
        audit_trail_well_formed(self@)
    }

    /// Opens the record; its trail starts with the creation event, number 1.
    pub fn open(project: Project, actor: AuditActor) -> (r: Self)
        ensures
            r.well_formed(),
            r@.project == project@,
            r@.events == seq![
                AuditEventView {
                    sequence: 1,
                    actor: actor@,
                    project: project@.code,
                    action: AuditActionView::ProjectCreated,
                    reason: None,
                },
            ],
    {
        let project_code = project.code.duplicate();
        let event = AuditEvent::new(1, actor, project_code, AuditAction::ProjectCreated, None);
        let mut audit_events: Vec<AuditEvent> = Vec::new();
        audit_events.push(event);
        let r = ProjectRecord { project, audit_events, next_audit_sequence: 2 };
        assert(r@.events =~= seq![event@]);
        r
    }

    pub fn project(&self) -> (r: &Project)
        ensures
            r@ == self@.project,
    {
        &self.project
    }

    pub fn audit_events(&self) -> (r: &[AuditEvent])
        ensures
            r@.map_values(|e: AuditEvent| e@) == self@.events,
    {
        self.audit_events.as_slice()
    }

    /// Appends an event numbered after the last one.
    fn append_audit_event(
        &mut self,
        actor: AuditActor,
        action: AuditAction,
        reason: Option<AuditReason>,
    ) -> (r: &AuditEvent)
        requires
            old(self).well_formed(),
            old(self)@.events.len() + 2 <= u64::MAX,
        ensures
            final(self).well_formed(),
            final(self)@.project == old(self)@.project,
            final(self)@.events == old(self)@.events.push(
                AuditEventView {
                    sequence: old(self)@.next_audit_sequence,
                    actor: actor@,
                    project: old(self)@.project.code,
                    action: action@,
                    reason: reason_view(reason),
                },
            ),
            r@ == final(self)@.events.last(),
    {
        let event = AuditEvent::new(
            self.next_audit_sequence,
            actor,
            self.project.code.duplicate(),
            action,
            reason,
        );
        self.next_audit_sequence = self.next_audit_sequence + 1;
        self.audit_events.push(event);
        let ghost old_events = old(self)@.events;
        assert(self@.events =~= old_events.push(event@));
        let n = self.audit_events.len();
        &self.audit_events[n - 1]
    }

    /// Moves the project to `next`, recording the change in the audit trail.
    pub fn advance_to(&mut self, next: ProjectStage, actor: AuditActor, reason: AuditReason) -> (r:
        Result<&AuditEvent, DomainError>)
        requires
            old(self).well_formed(),
            old(self)@.events.len() + 2 <= u64::MAX,
        ensures
            final(self).well_formed(),
            valid_transition(old(self)@.project.stage, next) ==> {
                &&& final(self)@.project == (ProjectView { stage: next, ..old(self)@.project })
                &&& final(self)@.events == old(self)@.events.push(
                    stage_event(
                        old(self)@.next_audit_sequence as int,
                        actor@,
                        old(self)@.project.code,
                        old(self)@.project.stage,
                        next,
                        reason@,
                    ),
                )
                &&& r matches Ok(e) && e@ == final(self)@.events.last()
            },
            !valid_transition(old(self)@.project.stage, next) ==> {
                &&& r matches Err(err) && err == (DomainError::InvalidProjectTransition {
                    from: old(self)@.project.stage,
                    to: next,
                })
                &&& final(self)@ == old(self)@
            },
    {
        let from = self.project.stage();
        match self.project.advance_to(next) {
            Ok(()) => {},
            Err(e) => {
                return Err(e);
            },
        }
        Ok(
            self.append_audit_event(
                actor,
                AuditAction::ProjectStageAdvanced { from, to: next },
                Some(reason),
            ),
        )
    }

    /// Moves an accredited project to test planning (see `advance_to_test_planning_for_mode`).
    pub fn advance_to_test_planning(
        &mut self,
        checklist: &ContractReviewChecklist,
        actor: AuditActor,
        reason: AuditReason,
        deviation: Option<AuthorizedDeviation>,
    ) -> (r: Result<&AuditEvent, DomainError>)
        requires
            old(self).well_formed(),
            old(self)@.events.len() + 3 <= u64::MAX,
        ensures
            final(self).well_formed(),
            test_planning_outcome(
                old(self)@,
                final(self)@,
                checklist@.project,
                missing_from(
                    required_items(ExecutionMode::Accredited),
                    checklist@.completed_items,
                ),
                actor@,
                reason@,
                deviation_view(deviation),
                match r {
                    Ok(_) => None,
                    Err(e) => Some(e),
                },
            ),
            r matches Ok(e) ==> e@ == final(self)@.events.last(),
    {
        self.advance_to_test_planning_for_mode(
            checklist,
            ExecutionMode::Accredited,
            actor,
            reason,
            deviation,
        )
    }

    /// Moves the project to test planning once its contract review is complete for the
    /// mode. Missing items need an authorized deviation, which is recorded in the audit
    /// trail before the stage change; without one the request is refused.
    pub fn advance_to_test_planning_for_mode(
        &mut self,
        checklist: &ContractReviewChecklist,
        execution_mode: ExecutionMode,
        actor: AuditActor,
        reason: AuditReason,
        deviation: Option<AuthorizedDeviation>,
    ) -> (r: Result<&AuditEvent, DomainError>)
        requires
            old(self).well_formed(),
            old(self)@.events.len() + 3 <= u64::MAX,
        ensures
            final(self).well_formed(),
            test_planning_outcome(
                old(self)@,
                final(self)@,
                checklist@.project,
                missing_from(required_items(execution_mode), checklist@.completed_items),
                actor@,
                reason@,
                deviation_view(deviation),
                match r {
                    Ok(_) => None,
                    Err(e) => Some(e),
                },
            ),
            r matches Ok(e) ==> e@ == final(self)@.events.last(),
    {
        if !checklist.project().eq(self.project.code()) {
            return Err(
                DomainError::ChecklistProjectMismatch {
                    project: self.project.code().duplicate(),
                    checklist_project: checklist.project().duplicate(),
                },
            );
        }
        let from = self.project.stage();
        if !can_transition(from, ProjectStage::TestPlanning) {
            return Err(
                DomainError::InvalidProjectTransition { from, to: ProjectStage::TestPlanning },
            );
        }
        let ghost pre = self@;
        let missing_items = checklist.missing_items_for_mode(execution_mode);
        let ghost missing = missing_items@;
        if missing_items.len() > 0 {
            match deviation {
                None => {
                    return Err(DomainError::IncompleteContractReview { missing_items });
                },
                Some(deviation) => {
                    let authorized_by = deviation.authorized_by().duplicate();
                    let deviation_reason = deviation.reason().duplicate();
                    self.append_audit_event(
                        authorized_by,
                        AuditAction::ContractReviewDeviationAuthorized { missing_items },
                        Some(deviation_reason),
                    );
                },
            }
        }
        proof {
            let deviation_events: Seq<AuditEventView> = if missing.len() > 0 {
                seq![
                    AuditEventView {
                        sequence: pre.next_audit_sequence,
                        actor: deviation_view(deviation)->0.authorized_by,
                        project: pre.project.code,
                        action: AuditActionView::ContractReviewDeviationAuthorized {
                            missing_items: missing,
                        },
                        reason: Some(deviation_view(deviation)->0.reason),
                    },
                ]
            } else {
                seq![]
            };
            let e = stage_event(
                pre.next_audit_sequence + deviation_events.len(),
                actor@,
                pre.project.code,
                pre.project.stage,
                ProjectStage::TestPlanning,
                reason@,
            );
            assert(self@.events =~= pre.events + deviation_events);
            assert(self@.events.push(e) =~= pre.events + deviation_events + seq![e]);
        }
        self.advance_to(ProjectStage::TestPlanning, actor, reason)
    }
}

pub struct DeviationView {
    pub authorized_by: Seq<char>,
    pub reason: Seq<char>,
}

pub open spec fn deviation_view(d: Option<AuthorizedDeviation>) -> Option<DeviationView> {
    match d {
        Some(d) => Some(DeviationView { authorized_by: d@.authorized_by, reason: d@.reason }),
        None => None,
    }
}

/// What a request to move to test planning does, given the record before (`pre`) and
/// after (`post`), the checklist's project, the review items still missing, and the
/// error returned, if any.
pub open spec fn test_planning_outcome(
    pre: ProjectRecordView,
    post: ProjectRecordView,
    checklist_project: Seq<char>,
    missing: Seq<ContractReviewItem>,
    actor: Seq<char>,
    reason: Seq<char>,
    deviation: Option<DeviationView>,
    error: Option<DomainError>,
) -> bool {
    if checklist_project != pre.project.code {
        &&& error matches Some(DomainError::ChecklistProjectMismatch { project, checklist_project: c })
        &&& project@ == pre.project.code && c@ == checklist_project
        &&& post == pre
    } else if !valid_transition(pre.project.stage, ProjectStage::TestPlanning) {
        &&& error == Some(
            DomainError::InvalidProjectTransition {
                from: pre.project.stage,
                to: ProjectStage::TestPlanning,
            },
        )
        &&& post == pre
    } else if missing.len() > 0 && deviation is None {
        &&& error matches Some(DomainError::IncompleteContractReview { missing_items })
        &&& missing_items@ == missing
        &&& post == pre
    } else {
        let deviation_events: Seq<AuditEventView> = if missing.len() > 0 {
            seq![
                AuditEventView {
                    sequence: pre.next_audit_sequence,
                    actor: deviation->0.authorized_by,
                    project: pre.project.code,
                    action: AuditActionView::ContractReviewDeviationAuthorized {
                        missing_items: missing,
                    },
                    reason: Some(deviation->0.reason),
                },
            ]
        } else {
            seq![]
        };
        &&& error is None
        &&& post.project == ProjectView { stage: ProjectStage::TestPlanning, ..pre.project }
        &&& post.events == pre.events + deviation_events + seq![
            stage_event(
                pre.next_audit_sequence + deviation_events.len(),
                actor,
                pre.project.code,
                pre.project.stage,
                ProjectStage::TestPlanning,
                reason,
            ),
        ]
    }
}

} // verus!
