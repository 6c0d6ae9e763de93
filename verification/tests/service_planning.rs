use emc_locus::service_planning::{
    ScheduleLocalDateTime, ScheduleResourceConflictKind, ServiceScheduleItem,
    ServiceScheduleItemInput, ServiceScheduleRescheduleInput, ServiceScheduleStatus,
    ServiceScheduleWeek,
};
use emc_locus::ProjectCode;

fn input_with_location(
    code: &str,
    start: &str,
    end: &str,
    operator: &str,
    location_id: Option<String>,
    location: &str,
) -> ServiceScheduleItemInput {
    ServiceScheduleItemInput {
        item_code: code.to_owned(),
        project_code: ProjectCode::parse("CEM-2026-001").unwrap(),
        title: "Émission conduite".to_owned(),
        planned_start_at: start.to_owned(),
        planned_end_at: end.to_owned(),
        assigned_operator: operator.to_owned(),
        laboratory_location_id: location_id,
        laboratory_location_label: location.to_owned(),
        equipment_under_test: "Convertisseur ferroviaire".to_owned(),
        test_category_code: None,
        test_method_code: None,
        status: ServiceScheduleStatus::Planned,
        notes: None,
    }
}

fn location_id_for(location: &str) -> String {
    format!(
        "LOCATION-{}",
        location.trim().replace(' ', "-").to_ascii_uppercase()
    )
}

fn item(code: &str, start: &str, end: &str, operator: &str, location: &str) -> ServiceScheduleItem {
    ServiceScheduleItem::create(input_with_location(
        code,
        start,
        end,
        operator,
        Some(location_id_for(location)),
        location,
    ))
    .unwrap()
}

#[test]
fn creates_a_normalized_business_day_schedule_item() {
    let item = item(
        " PLAN-001 ",
        "2026-07-15T09:00",
        "2026-07-15T12:00",
        " Alice Martin ",
        " Labo CEM 1 ",
    );

    assert_eq!(item.item_code(), "PLAN-001");
    assert_eq!(item.assigned_operator(), "Alice Martin");
    assert_eq!(item.laboratory_location_id(), Some("LOCATION-LABO-CEM-1"));
    assert_eq!(item.laboratory_location_label(), "Labo CEM 1");
    assert_eq!(item.status(), ServiceScheduleStatus::Planned);
}

#[test]
fn rejects_invalid_or_weekend_schedule_dates() {
    let invalid = ScheduleLocalDateTime::parse("2026-02-30T09:00", "start").unwrap_err();
    assert_eq!(invalid.code, "invalid_schedule_datetime");

    let weekend = ServiceScheduleItem::create(ServiceScheduleItemInput {
        item_code: "PLAN-WEEKEND".to_owned(),
        project_code: ProjectCode::parse("CEM-2026-001").unwrap(),
        title: "Essai".to_owned(),
        planned_start_at: "2026-07-18T09:00".to_owned(),
        planned_end_at: "2026-07-18T10:00".to_owned(),
        assigned_operator: "Alice".to_owned(),
        laboratory_location_id: Some("LOCATION-LABO-1".to_owned()),
        laboratory_location_label: "Labo 1".to_owned(),
        equipment_under_test: "EUT".to_owned(),
        test_category_code: None,
        test_method_code: None,
        status: ServiceScheduleStatus::Planned,
        notes: None,
    })
    .unwrap_err();
    assert_eq!(weekend.code, "schedule_outside_business_day");
}

#[test]
fn rejects_multi_day_and_non_positive_blocks() {
    let mut input = ServiceScheduleItemInput {
        item_code: "PLAN-BAD".to_owned(),
        project_code: ProjectCode::parse("CEM-2026-001").unwrap(),
        title: "Essai".to_owned(),
        planned_start_at: "2026-07-15T09:00".to_owned(),
        planned_end_at: "2026-07-16T10:00".to_owned(),
        assigned_operator: "Alice".to_owned(),
        laboratory_location_id: Some("LOCATION-LABO-1".to_owned()),
        laboratory_location_label: "Labo 1".to_owned(),
        equipment_under_test: "EUT".to_owned(),
        test_category_code: None,
        test_method_code: None,
        status: ServiceScheduleStatus::Planned,
        notes: None,
    };
    assert_eq!(
        ServiceScheduleItem::create(input.clone()).unwrap_err().code,
        "schedule_spans_multiple_days"
    );
    input.planned_end_at = input.planned_start_at.clone();
    assert_eq!(
        ServiceScheduleItem::create(input).unwrap_err().code,
        "schedule_end_not_after_start"
    );
}

#[test]
fn adjacent_blocks_do_not_overlap() {
    let morning = item("PLAN-AM", "2026-07-15T09:00", "2026-07-15T12:00", "Alice", "Labo 1");
    let afternoon = item("PLAN-PM", "2026-07-15T12:00", "2026-07-15T15:00", "Alice", "Labo 1");

    assert!(!morning.overlaps(&afternoon));
    assert_eq!(morning.resource_conflict(&afternoon), None);
}

#[test]
fn reports_operator_before_location_conflicts() {
    let first = item("PLAN-001", "2026-07-15T09:00", "2026-07-15T12:00", "Alice", "Labo 1");
    let same_operator = item("PLAN-002", "2026-07-15T10:00", "2026-07-15T11:00", "Alice", "Labo 2");
    let same_location = item("PLAN-003", "2026-07-15T10:00", "2026-07-15T11:00", "Bob", "Labo 1");

    assert_eq!(
        first.resource_conflict(&same_operator),
        Some(ScheduleResourceConflictKind::Operator)
    );
    assert_eq!(
        first.resource_conflict(&same_location),
        Some(ScheduleResourceConflictKind::Location)
    );
}

#[test]
fn location_conflicts_use_stable_identity_instead_of_label() {
    let first = item(
        "PLAN-LOCATION-1",
        "2026-07-15T09:00",
        "2026-07-15T12:00",
        "Alice",
        "Ancien nom",
    );
    // The second item is the same location renamed: it keeps the first item's identifier.
    let renamed_same_location = ServiceScheduleItem::create(input_with_location(
        "PLAN-LOCATION-2",
        "2026-07-15T10:00",
        "2026-07-15T11:00",
        "Bob",
        first.laboratory_location_id().map(str::to_owned),
        "Nouveau nom",
    ))
    .unwrap();
    // The third item carries the first item's label but another location identifier.
    let same_label_other_location = ServiceScheduleItem::create(input_with_location(
        "PLAN-LOCATION-3",
        "2026-07-15T10:00",
        "2026-07-15T11:00",
        "Bob",
        Some("LAB-LOCATION-DIFFERENT".to_owned()),
        first.laboratory_location_label(),
    ))
    .unwrap();

    assert_eq!(
        first.resource_conflict(&renamed_same_location),
        Some(ScheduleResourceConflictKind::Location)
    );
    assert_eq!(first.resource_conflict(&same_label_other_location), None);
}

#[test]
fn unresolved_location_identity_blocks_without_guessing_from_the_label() {
    let candidate = item(
        "PLAN-CANDIDATE",
        "2026-07-15T09:00",
        "2026-07-15T12:00",
        "Bob",
        "Poste CEM 1",
    );
    let historical = ServiceScheduleItem::restore(ServiceScheduleItemInput {
        item_code: "PLAN-HISTORICAL".to_owned(),
        project_code: ProjectCode::parse("CEM-2026-001").unwrap(),
        title: "Essai historique".to_owned(),
        planned_start_at: "2026-07-15T10:00".to_owned(),
        planned_end_at: "2026-07-15T11:00".to_owned(),
        assigned_operator: "Alice".to_owned(),
        laboratory_location_id: None,
        laboratory_location_label: "Poste CEM 1".to_owned(),
        equipment_under_test: "EUT".to_owned(),
        test_category_code: None,
        test_method_code: None,
        status: ServiceScheduleStatus::Confirmed,
        notes: None,
    })
    .unwrap();

    assert_eq!(historical.laboratory_location_id(), None);
    assert_eq!(
        candidate.resource_conflict(&historical),
        Some(ScheduleResourceConflictKind::UnresolvedLocationIdentity)
    );
}

#[test]
fn operator_conflict_has_priority_over_unresolved_location_identity() {
    let candidate = item(
        "PLAN-CANDIDATE",
        "2026-07-15T09:00",
        "2026-07-15T12:00",
        "Alice",
        "Poste CEM 2",
    );
    let historical = ServiceScheduleItem::restore(ServiceScheduleItemInput {
        item_code: "PLAN-HISTORICAL".to_owned(),
        project_code: ProjectCode::parse("CEM-2026-001").unwrap(),
        title: "Essai historique".to_owned(),
        planned_start_at: "2026-07-15T10:00".to_owned(),
        planned_end_at: "2026-07-15T11:00".to_owned(),
        assigned_operator: "Alice".to_owned(),
        laboratory_location_id: None,
        laboratory_location_label: "Ancien libellé".to_owned(),
        equipment_under_test: "EUT".to_owned(),
        test_category_code: None,
        test_method_code: None,
        status: ServiceScheduleStatus::Planned,
        notes: None,
    })
    .unwrap();

    assert_eq!(
        candidate.resource_conflict(&historical),
        Some(ScheduleResourceConflictKind::Operator)
    );
}

#[test]
fn terminal_items_no_longer_reserve_resources() {
    let mut completed = item("PLAN-001", "2026-07-15T09:00", "2026-07-15T12:00", "Alice", "Labo 1");
    completed.transition_to(ServiceScheduleStatus::Confirmed).unwrap();
    completed.transition_to(ServiceScheduleStatus::InProgress).unwrap();
    completed.transition_to(ServiceScheduleStatus::Completed).unwrap();
    let replacement = item("PLAN-002", "2026-07-15T10:00", "2026-07-15T11:00", "Alice", "Labo 1");

    assert_eq!(completed.resource_conflict(&replacement), None);
}

#[test]
fn enforces_sequential_status_transitions() {
    let mut item = item("PLAN-001", "2026-07-15T09:00", "2026-07-15T12:00", "Alice", "Labo 1");
    assert_eq!(
        item.transition_to(ServiceScheduleStatus::Completed).unwrap_err().code,
        "invalid_schedule_status_transition"
    );
    item.transition_to(ServiceScheduleStatus::Confirmed).unwrap();
    item.transition_to(ServiceScheduleStatus::InProgress).unwrap();
    item.transition_to(ServiceScheduleStatus::Completed).unwrap();
    assert!(item.status().is_terminal());
}

#[test]
fn allows_cancellation_from_any_open_state() {
    for status in [
        ServiceScheduleStatus::Planned,
        ServiceScheduleStatus::Confirmed,
        ServiceScheduleStatus::InProgress,
    ] {
        let mut item = item("PLAN-001", "2026-07-15T09:00", "2026-07-15T12:00", "Alice", "Labo 1");
        if status != ServiceScheduleStatus::Planned {
            item.transition_to(ServiceScheduleStatus::Confirmed).unwrap();
        }
        if status == ServiceScheduleStatus::InProgress {
            item.transition_to(ServiceScheduleStatus::InProgress).unwrap();
        }
        item.transition_to(ServiceScheduleStatus::Cancelled).unwrap();
        assert_eq!(item.status(), ServiceScheduleStatus::Cancelled);
    }
}

#[test]
fn builds_a_monday_to_friday_week_across_month_boundaries() {
    let week = ServiceScheduleWeek::parse("2026-08-31").unwrap();

    assert_eq!(week.start_date(), "2026-08-31");
    assert_eq!(week.end_date(), "2026-09-04");
    assert_eq!(week.query_start_at(), "2026-08-31T00:00");
    assert_eq!(week.query_end_at_exclusive(), "2026-09-07T00:00");
}

#[test]
fn rejects_a_week_that_does_not_start_on_monday() {
    let error = ServiceScheduleWeek::parse("2026-07-15").unwrap_err();

    assert_eq!(error.code, "schedule_week_must_start_on_monday");
    assert_eq!(error.field, "week_start");
}

#[test]
fn reschedules_planned_and_confirmed_items_without_changing_their_state() {
    for status in [ServiceScheduleStatus::Planned, ServiceScheduleStatus::Confirmed] {
        let mut current = item("PLAN-001", "2026-07-15T09:00", "2026-07-15T12:00", "Alice", "Labo 1");
        if status == ServiceScheduleStatus::Confirmed {
            current.transition_to(ServiceScheduleStatus::Confirmed).unwrap();
        }

        let moved = current
            .rescheduled(ServiceScheduleRescheduleInput {
                planned_start_at: "2026-07-16T13:00".to_owned(),
                planned_end_at: "2026-07-16T16:00".to_owned(),
                assigned_operator: "Bob".to_owned(),
                laboratory_location_id: "LOCATION-LABO-2".to_owned(),
                laboratory_location_label: "Labo 2".to_owned(),
            })
            .unwrap();

        assert_eq!(moved.status(), status);
        assert_eq!(moved.planned_start_at(), "2026-07-16T13:00");
        assert_eq!(moved.assigned_operator(), "Bob");
        assert_eq!(moved.equipment_under_test(), current.equipment_under_test());
    }
}

#[test]
fn rejects_rescheduling_after_a_test_has_started() {
    let mut current = item("PLAN-001", "2026-07-15T09:00", "2026-07-15T12:00", "Alice", "Labo 1");
    current.transition_to(ServiceScheduleStatus::Confirmed).unwrap();
    current.transition_to(ServiceScheduleStatus::InProgress).unwrap();

    let error = current
        .rescheduled(ServiceScheduleRescheduleInput {
            planned_start_at: "2026-07-16T13:00".to_owned(),
            planned_end_at: "2026-07-16T16:00".to_owned(),
            assigned_operator: "Alice".to_owned(),
            laboratory_location_id: "LOCATION-LABO-1".to_owned(),
            laboratory_location_label: "Labo 1".to_owned(),
        })
        .unwrap_err();

    assert_eq!(error.code, "schedule_status_not_reschedulable");
}

#[test]
fn status_labels_round_trip_and_unknown_labels_are_refused() {
    for status in [
        ServiceScheduleStatus::Planned,
        ServiceScheduleStatus::Confirmed,
        ServiceScheduleStatus::InProgress,
        ServiceScheduleStatus::Completed,
        ServiceScheduleStatus::Cancelled,
    ] {
        assert_eq!(ServiceScheduleStatus::parse(&format!(" {} ", status.as_str())).unwrap(), status);
    }
    let error = ServiceScheduleStatus::parse("done").unwrap_err();
    assert_eq!(error.code, "unknown_schedule_status");
    assert_eq!(error.field, "status");
    assert!(ServiceScheduleStatus::Completed.allowed_targets().is_empty());
    assert_eq!(
        ServiceScheduleStatus::Planned.allowed_targets(),
        &[ServiceScheduleStatus::Confirmed, ServiceScheduleStatus::Cancelled]
    );
}

#[test]
fn schedule_fields_are_checked_in_order() {
    let mut input = input_with_location(
        "PLAN 1",
        "2026-07-15T09:00",
        "2026-07-15T10:00",
        "Alice",
        Some("LOC-1".to_owned()),
        "Labo",
    );
    let error = ServiceScheduleItem::create(input.clone()).unwrap_err();
    assert_eq!(error.code, "invalid_schedule_identifier");
    assert_eq!(error.field, "item_code");
    input.item_code = "PLAN-1".to_owned();
    input.title = "   ".to_owned();
    let error = ServiceScheduleItem::create(input.clone()).unwrap_err();
    assert_eq!(error.code, "planning_required_field_missing");
    assert_eq!(error.field, "title");
    input.title = "Essai".to_owned();
    input.laboratory_location_id = None;
    let error = ServiceScheduleItem::create(input.clone()).unwrap_err();
    assert_eq!(error.code, "schedule_location_identity_required");
    input.laboratory_location_id = Some("LOC-1".to_owned());
    input.status = ServiceScheduleStatus::Confirmed;
    let error = ServiceScheduleItem::create(input.clone()).unwrap_err();
    assert_eq!(error.code, "schedule_initial_status_must_be_planned");
    input.status = ServiceScheduleStatus::Planned;
    input.planned_start_at = "2026-07-15 09:00".to_owned();
    let error = ServiceScheduleItem::create(input.clone()).unwrap_err();
    assert_eq!(error.code, "invalid_schedule_datetime");
    assert_eq!(error.field, "planned_start_at");
    input.planned_start_at = "1999-07-15T09:00".to_owned();
    assert_eq!(ServiceScheduleItem::create(input.clone()).unwrap_err().code, "invalid_schedule_datetime");
    input.planned_start_at = "2026-07-15T09:00".to_owned();
    input.notes = Some("  Prévoir câbles  ".to_owned());
    input.test_category_code = Some("  ".to_owned());
    input.test_method_code = Some(" M-1 ".to_owned());
    let item = ServiceScheduleItem::create(input).unwrap();
    assert_eq!(item.notes(), "Prévoir câbles");
    assert_eq!(item.test_category_code(), None);
    assert_eq!(item.test_method_code(), Some("M-1"));
    assert_eq!(item.planned_end_at(), "2026-07-15T10:00");
}

#[test]
fn leap_days_and_year_ends_are_civil_dates() {
    assert!(ScheduleLocalDateTime::parse("2028-02-29T08:00", "start").is_ok());
    assert!(ScheduleLocalDateTime::parse("2026-02-29T08:00", "start").is_err());
    assert!(ScheduleLocalDateTime::parse("2026-07-15T24:00", "start").is_err());
    let moment = ScheduleLocalDateTime::parse(" 2026-07-17T08:00 ", "start").unwrap();
    assert_eq!(moment.as_str(), "2026-07-17T08:00");
    assert!(moment.is_business_day());
    let week = ServiceScheduleWeek::parse("2029-12-31").unwrap();
    assert_eq!(week.end_date(), "2030-01-04");
    assert_eq!(week.query_end_at_exclusive(), "2030-01-07T00:00");
    let error = ServiceScheduleWeek::parse("2026-13-01").unwrap_err();
    assert_eq!(error.code, "invalid_schedule_date");
    assert_eq!(error.field, "week_start");
}
