//! Contract review checklists, authorized deviations and the quality
//! constraints attached to each execution mode.

use crate::identifiers::{AuditActor, AuditReason, ProjectCode};
use vstd::prelude::*;

verus! {

#[derive(Clone, Copy, Debug, PartialEq, Eq, Structural)]
pub enum ContractReviewItem {
    CustomerRequestDefined,
    TestMethodSelected,
    LaboratoryCapabilityConfirmed,
    EquipmentAvailabilityChecked,
    CalibrationStatusReviewed,
    ImpartialityRisksReviewed,
    DataRetentionAgreed,
    ReportRequirementsAgreed,
    DeviationsRecorded,
}

/// Every contract review item, in review order.
pub open spec fn baseline_items() -> Seq<ContractReviewItem> {
    seq![
        ContractReviewItem::CustomerRequestDefined,
        ContractReviewItem::TestMethodSelected,
        ContractReviewItem::LaboratoryCapabilityConfirmed,
        ContractReviewItem::EquipmentAvailabilityChecked,
        ContractReviewItem::CalibrationStatusReviewed,
        ContractReviewItem::ImpartialityRisksReviewed,
        ContractReviewItem::DataRetentionAgreed,
        ContractReviewItem::ReportRequirementsAgreed,
        ContractReviewItem::DeviationsRecorded,
    ]
}

/// The items a contract review must cover before testing in the given mode.
pub open spec fn required_items(mode: ExecutionMode) -> Seq<ContractReviewItem> {
    match mode {
        ExecutionMode::Accredited => baseline_items(),
        ExecutionMode::NonAccredited => seq![
            ContractReviewItem::CustomerRequestDefined,
            ContractReviewItem::TestMethodSelected,
            ContractReviewItem::LaboratoryCapabilityConfirmed,
            ContractReviewItem::DeviationsRecorded,
        ],
        ExecutionMode::Investigation => seq![
            ContractReviewItem::CustomerRequestDefined,
            ContractReviewItem::DeviationsRecorded,
        ],
    }
}

/// The items of `items` that do not occur in `done`, in the order of `items`.
pub open spec fn missing_from(items: Seq<ContractReviewItem>, done: Seq<ContractReviewItem>) -> Seq<
    ContractReviewItem,
>
    decreases items.len(),
{
    if items.len() == 0 {
        Seq::empty()
    } else {
        let rest = missing_from(items.drop_last(), done);
        if done.contains(items.last()) {
            rest
        } else {
            rest.push(items.last())
        }
    }
}

pub fn baseline_contract_review_items() -> (r: Vec<ContractReviewItem>)
    ensures
        r@ == baseline_items(),
{
    let r = vec![
        ContractReviewItem::CustomerRequestDefined,
        ContractReviewItem::TestMethodSelected,
        ContractReviewItem::LaboratoryCapabilityConfirmed,
        ContractReviewItem::EquipmentAvailabilityChecked,
        ContractReviewItem::CalibrationStatusReviewed,
        ContractReviewItem::ImpartialityRisksReviewed,
        ContractReviewItem::DataRetentionAgreed,
        ContractReviewItem::ReportRequirementsAgreed,
        ContractReviewItem::DeviationsRecorded,
    ];
    assert(r@ =~= baseline_items());
    r
}

pub fn required_contract_review_items(mode: ExecutionMode) -> (r: Vec<ContractReviewItem>)
    ensures
        r@ == required_items(mode),
{
    match mode {
        ExecutionMode::Accredited => baseline_contract_review_items(),
        ExecutionMode::NonAccredited => {
            let r = vec![
                ContractReviewItem::CustomerRequestDefined,
                ContractReviewItem::TestMethodSelected,
                ContractReviewItem::LaboratoryCapabilityConfirmed,
                ContractReviewItem::DeviationsRecorded,
            ];
            assert(r@ =~= required_items(mode));
            r
        },
        ExecutionMode::Investigation => {
            let r = vec![
                ContractReviewItem::CustomerRequestDefined,
                ContractReviewItem::DeviationsRecorded,
            ];
            assert(r@ =~= required_items(mode));
            r
        },
    }
}

fn contains_item(items: &Vec<ContractReviewItem>, item: ContractReviewItem) -> (b: bool)
    ensures
        b == items@.contains(item),
{
    let mut i: usize = 0;
    while i < items.len()
        invariant
            i <= items.len(),
            forall|k: int| 0 <= k < i ==> items@[k] != item,
        decreases items.len() - i,
    {
        if items[i] == item {
            assert(items@[i as int] == item);
            return true;
        }
        i = i + 1;
    }
    false
}

fn missing_items_of(items: &Vec<ContractReviewItem>, done: &Vec<ContractReviewItem>) -> (r: Vec<
    ContractReviewItem,
>)
    ensures
        r@ == missing_from(items@, done@),
{
    let mut r: Vec<ContractReviewItem> = Vec::new();
    let mut i: usize = 0;
    assert(items@.take(0) =~= Seq::<ContractReviewItem>::empty());
    while i < items.len()
        invariant
            i <= items.len(),
            r@ == missing_from(items@.take(i as int), done@),
        decreases items.len() - i,
    {
        assert(items@.take((i + 1) as int).drop_last() =~= items@.take(i as int));
        if !contains_item(done, items[i]) {
            r.push(items[i]);
        }
        i = i + 1;
    }
    assert(items@.take(items.len() as int) =~= items@);
    r
}

/// The contract review of a project: which review items have been completed.
#[derive(Clone, Debug, PartialEq, Eq)]
pub struct ContractReviewChecklist {
    project: ProjectCode,
    completed_items: Vec<ContractReviewItem>,
}

pub struct ContractReviewChecklistView {
    pub project: Seq<char>,
    pub completed_items: Seq<ContractReviewItem>,
}

impl View for ContractReviewChecklist {
    type V = ContractReviewChecklistView;

    closed spec fn view(&self) -> ContractReviewChecklistView {
        ContractReviewChecklistView {
            project: self.project@,
            completed_items: self.completed_items@,
        }
    }
}

impl ContractReviewChecklist {
    /// Completed items are recorded once each.
    pub closed spec fn well_formed(&self) -> bool {
        self.completed_items@.no_duplicates()
    }

    pub fn new(project: ProjectCode) -> (r: Self)
        ensures
            r@.project == project@,
            r@.completed_items == Seq::<ContractReviewItem>::empty(),
            r.well_formed(),
    {
        ContractReviewChecklist { project, completed_items: Vec::new() }
    }

    pub fn project(&self) -> (r: &ProjectCode)
        ensures
            r@ == self@.project,
    {
        &self.project
    }

    pub fn completed_items(&self) -> (r: &[ContractReviewItem])
        ensures
            r@ == self@.completed_items,
    {
        self.completed_items.as_slice()
    }

    /// Records the item as completed, once.
    pub fn mark_complete(&mut self, item: ContractReviewItem)
        ensures
            old(self).well_formed() ==> final(self).well_formed(),
            final(self)@.project == old(self)@.project,
            final(self)@.completed_items == if old(self)@.completed_items.contains(item) {
                old(self)@.completed_items
            } else {
                old(self)@.completed_items.push(item)
            },
    {
        if !contains_item(&self.completed_items, item) {
            self.completed_items.push(item);
        }
    }

    /// The baseline items not yet completed, in review order.
    pub fn missing_items(&self) -> (r: Vec<ContractReviewItem>)
        ensures
            r@ == missing_from(baseline_items(), self@.completed_items),
    {
        let baseline = baseline_contract_review_items();
        missing_items_of(&baseline, &self.completed_items)
    }

    /// The items required in the given mode that are not yet completed, in review order.
    pub fn missing_items_for_mode(&self, mode: ExecutionMode) -> (r: Vec<ContractReviewItem>)
        ensures
            r@ == missing_from(required_items(mode), self@.completed_items),
    {
        let required = required_contract_review_items(mode);
        missing_items_of(&required, &self.completed_items)
    }

    /// Whether every baseline item is completed.
    pub fn is_complete(&self) -> (b: bool)
        ensures
            b == (forall|i: int|
                0 <= i < baseline_items().len() ==> self@.completed_items.contains(
                    #[trigger] baseline_items()[i],
                )),
    {
        let baseline = baseline_contract_review_items();
        self.all_completed(&baseline)
    }

    /// Whether every item required in the given mode is completed.
    pub fn is_complete_for_mode(&self, mode: ExecutionMode) -> (b: bool)
        ensures
            b == (forall|i: int|
                0 <= i < required_items(mode).len() ==> self@.completed_items.contains(
                    #[trigger] required_items(mode)[i],
                )),
    {
        let required = required_contract_review_items(mode);
        self.all_completed(&required)
    }

    fn all_completed(&self, items: &Vec<ContractReviewItem>) -> (b: bool)
        ensures
            b == (forall|i: int|
                0 <= i < items@.len() ==> self@.completed_items.contains(#[trigger] items@[i])),
    {
        let mut i: usize = 0;
        while i < items.len()
            invariant
                i <= items.len(),
                forall|k: int| 0 <= k < i ==> self@.completed_items.contains(#[trigger] items@[k]),
            decreases items.len() - i,
        {
            if !contains_item(&self.completed_items, items[i]) {
                return false;
            }
            i = i + 1;
        }
        true
    }
}

/// Nothing is missing from a checklist exactly when every required item occurs in it.
pub proof fn lemma_missing_empty_iff_complete(
    items: Seq<ContractReviewItem>,
    done: Seq<ContractReviewItem>,
)
    ensures
        (missing_from(items, done).len() == 0) == (forall|i: int|
            0 <= i < items.len() ==> done.contains(#[trigger] items[i])),
    decreases items.len(),
{
    if items.len() > 0 {
        lemma_missing_empty_iff_complete(items.drop_last(), done);
        let rest = missing_from(items.drop_last(), done);
        if done.contains(items.last()) {
            if rest.len() == 0 {
                assert forall|i: int| 0 <= i < items.len() implies done.contains(
                    #[trigger] items[i],
                ) by {
                    if i < items.len() - 1 {
                        assert(items[i] == items.drop_last()[i]);
                    }
                }
            } else {
                let k = choose|k: int|
                    0 <= k < items.drop_last().len() && !done.contains(
                        #[trigger] items.drop_last()[k],
                    );
                assert(items[k] == items.drop_last()[k]);
            }
        } else {
            assert(!done.contains(items[items.len() - 1]));
        }
    }
}

/// A checklist is complete for a mode exactly when no item is missing for that mode.
pub proof fn lemma_complete_for_mode_iff_nothing_missing(
    checklist: ContractReviewChecklist,
    mode: ExecutionMode,
)
    ensures
        (missing_from(required_items(mode), checklist@.completed_items).len() == 0) == (forall|
            i: int,
        |
            0 <= i < required_items(mode).len() ==> checklist@.completed_items.contains(
                #[trigger] required_items(mode)[i],
            )),
{
    lemma_missing_empty_iff_complete(required_items(mode), checklist@.completed_items);
}

/// A deviation from the contract review, authorized by a named person.
#[derive(Clone, Debug, PartialEq, Eq)]
pub struct AuthorizedDeviation {
    authorized_by: AuditActor,
    reason: AuditReason,
}

pub struct AuthorizedDeviationView {
    pub authorized_by: Seq<char>,
    pub reason: Seq<char>,
}

impl View for AuthorizedDeviation {
    type V = AuthorizedDeviationView;

    closed spec fn view(&self) -> AuthorizedDeviationView {
        AuthorizedDeviationView { authorized_by: self.authorized_by@, reason: self.reason@ }
    }
}

impl AuthorizedDeviation {
    pub fn new(authorized_by: AuditActor, reason: AuditReason) -> (r: Self)
        ensures
            r@.authorized_by == authorized_by@,
            r@.reason == reason@,
    {
        AuthorizedDeviation { authorized_by, reason }
    }

    pub fn authorized_by(&self) -> (r: &AuditActor)
        ensures
            r@ == self@.authorized_by,
    {
        &self.authorized_by
    }

    pub fn reason(&self) -> (r: &AuditReason)
        ensures
            r@ == self@.reason,
    {
        &self.reason
    }
}

#[derive(Clone, Copy, Debug, PartialEq, Eq, Structural)]
pub enum ExecutionMode {
    Accredited,
    NonAccredited,
    Investigation,
}

/// The quality constraints that apply to a mode.
pub open spec fn profile_of(mode: ExecutionMode) -> QualityConstraintProfileView {
    QualityConstraintProfileView {
        mode,
        stage_gates_required: mode != ExecutionMode::Investigation,
        valid_calibration_required: mode == ExecutionMode::Accredited,
        controlled_method_required: mode != ExecutionMode::Investigation,
        report_approval_required: mode == ExecutionMode::Accredited,
        deviations_allowed: true,
        exploratory_steps_allowed: mode == ExecutionMode::Investigation,
    }
}

impl ExecutionMode {
    pub fn constraint_profile(self) -> (r: QualityConstraintProfile)
        ensures
            r@ == profile_of(self),
    {
        match self {
            ExecutionMode::Accredited => QualityConstraintProfile {
                mode: self,
                stage_gates_required: true,
                valid_calibration_required: true,
                controlled_method_required: true,
                report_approval_required: true,
                deviations_allowed: true,
                exploratory_steps_allowed: false,
            },
            ExecutionMode::NonAccredited => QualityConstraintProfile {
                mode: self,
                stage_gates_required: true,
                valid_calibration_required: false,
                controlled_method_required: true,
                report_approval_required: false,
                deviations_allowed: true,
                exploratory_steps_allowed: false,
            },
            ExecutionMode::Investigation => QualityConstraintProfile {
                mode: self,
                stage_gates_required: false,
                valid_calibration_required: false,
                controlled_method_required: false,
                report_approval_required: false,
                deviations_allowed: true,
                exploratory_steps_allowed: true,
            },
        }
    }
}

#[derive(Clone, Copy, Debug, PartialEq, Eq, Structural)]
pub struct QualityConstraintProfile {
    mode: ExecutionMode,
    stage_gates_required: bool,
    valid_calibration_required: bool,
    controlled_method_required: bool,
    report_approval_required: bool,
    deviations_allowed: bool,
    exploratory_steps_allowed: bool,
}

pub struct QualityConstraintProfileView {
    pub mode: ExecutionMode,
    pub stage_gates_required: bool,
    pub valid_calibration_required: bool,
    pub controlled_method_required: bool,
    pub report_approval_required: bool,
    pub deviations_allowed: bool,
    pub exploratory_steps_allowed: bool,
}

impl View for QualityConstraintProfile {
    type V = QualityConstraintProfileView;

    closed spec fn view(&self) -> QualityConstraintProfileView {
        QualityConstraintProfileView {
            mode: self.mode,
            stage_gates_required: self.stage_gates_required,
            valid_calibration_required: self.valid_calibration_required,
            controlled_method_required: self.controlled_method_required,
            report_approval_required: self.report_approval_required,
            deviations_allowed: self.deviations_allowed,
            exploratory_steps_allowed: self.exploratory_steps_allowed,
        }
    }
}

impl QualityConstraintProfile {
    pub fn mode(&self) -> (r: ExecutionMode)
        ensures
            r == self@.mode,
    {
        self.mode
    }

    pub fn stage_gates_required(&self) -> (r: bool)
        ensures
            r == self@.stage_gates_required,
    {
        self.stage_gates_required
    }

    pub fn valid_calibration_required(&self) -> (r: bool)
        ensures
            r == self@.valid_calibration_required,
    {
        self.valid_calibration_required
    }

    pub fn controlled_method_required(&self) -> (r: bool)
        ensures
            r == self@.controlled_method_required,
    {
        self.controlled_method_required
    }

    pub fn report_approval_required(&self) -> (r: bool)
        ensures
            r == self@.report_approval_required,
    {
        self.report_approval_required
    }

    pub fn deviations_allowed(&self) -> (r: bool)
        ensures
            r == self@.deviations_allowed,
    {
        self.deviations_allowed
    }

    pub fn exploratory_steps_allowed(&self) -> (r: bool)
        ensures
            r == self@.exploratory_steps_allowed,
    {
        self.exploratory_steps_allowed
    }
}

} // verus!
