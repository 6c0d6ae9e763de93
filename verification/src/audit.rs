//! Audit trail entries of a project record.

use crate::identifiers::{AuditActor, AuditReason, ProjectCode};
use crate::project::ProjectStage;
use crate::quality::ContractReviewItem;
use vstd::prelude::*;

verus! {

/// What an audit event records.
#[derive(Clone, Debug, PartialEq, Eq)]
pub enum AuditAction {
    ProjectCreated,
    ProjectStageAdvanced { from: ProjectStage, to: ProjectStage },
    ContractReviewDeviationAuthorized { missing_items: Vec<ContractReviewItem> },
}

/// The abstract content of an audit action.
pub enum AuditActionView {
    ProjectCreated,
    ProjectStageAdvanced { from: ProjectStage, to: ProjectStage },
    ContractReviewDeviationAuthorized { missing_items: Seq<ContractReviewItem> },
}

impl View for AuditAction {
    type V = AuditActionView;

    open spec fn view(&self) -> AuditActionView {
        match self {
            AuditAction::ProjectCreated => AuditActionView::ProjectCreated,
            AuditAction::ProjectStageAdvanced { from, to } => AuditActionView::ProjectStageAdvanced {
                from: *from,
                to: *to,
            },
            AuditAction::ContractReviewDeviationAuthorized { missing_items } =>
                AuditActionView::ContractReviewDeviationAuthorized {
                missing_items: missing_items@,
            },
        }
    }
}

/// One numbered entry of a project's audit trail.
#[derive(Clone, Debug, PartialEq, Eq)]
pub struct AuditEvent {
    sequence: u64,
    actor: AuditActor,
    project: ProjectCode,
    action: AuditAction,
    reason: Option<AuditReason>,
}

pub struct AuditEventView {
    pub sequence: u64,
    pub actor: Seq<char>,
    pub project: Seq<char>,
    pub action: AuditActionView,
    pub reason: Option<Seq<char>>,
}

pub open spec fn reason_view(reason: Option<AuditReason>) -> Option<Seq<char>> {
    match reason {
        Some(r) => Some(r@),
        None => None,
    }
}

impl View for AuditEvent {
    type V = AuditEventView;

    closed spec fn view(&self) -> AuditEventView {
        AuditEventView {
            sequence: self.sequence,
            actor: self.actor@,
            project: self.project@,
            action: self.action@,
            reason: reason_view(self.reason),
        }
    }
}

impl AuditEvent {
    pub fn new(
        sequence: u64,
        actor: AuditActor,
        project: ProjectCode,
        action: AuditAction,
        reason: Option<AuditReason>,
    ) -> (r: Self)
        ensures
            r@ == (AuditEventView {
                sequence,
                actor: actor@,
                project: project@,
                action: action@,
                reason: reason_view(reason),
            }),
    {
        AuditEvent { sequence, actor, project, action, reason }
    }

    pub fn sequence(&self) -> (r: u64)
        ensures
            r == self@.sequence,
    {
        self.sequence
    }

    pub fn actor(&self) -> (r: &AuditActor)
        ensures
            r@ == self@.actor,
    {
        &self.actor
    }

    pub fn project(&self) -> (r: &ProjectCode)
        ensures
            r@ == self@.project,
    {
        &self.project
    }

    pub fn action(&self) -> (r: &AuditAction)
        ensures
            r@ == self@.action,
    {
        &self.action
    }

    pub fn reason(&self) -> (r: Option<&AuditReason>)
        ensures
            match r {
                Some(x) => self@.reason == Some(x@),
                None => self@.reason is None,
            },
    {
        match &self.reason {
            Some(x) => Some(x),
            None => None,
        }
    }
}

} // verus!
