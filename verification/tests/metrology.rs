use emc_locus::metrology::{
    assess_metrology, CalibrationDecision, CalibrationRecord, CalibrationRequirement,
    CalibrationStatus, EquipmentIssueKind, InstrumentCode, InstrumentFamily, InstrumentRecord,
    InstrumentServiceability, MetrologyAssessment, MetrologyAssessmentReasonCode,
    MetrologyAssessmentStatus, MetrologyDate, MetrologyRegistry,
    DEFAULT_CALIBRATION_DUE_SOON_WARNING_DAYS,
};
use emc_locus::quality::ExecutionMode;
use emc_locus::DomainError;

#[test]
fn due_date_boundaries_use_civil_dates() {
    let calibrated_at = Some(MetrologyDate::parse_iso("2025-07-27").unwrap());
    let due_at = Some(MetrologyDate::parse_iso("2026-07-27").unwrap());
    for (checked_on, expected) in [
        ("2026-06-01", MetrologyAssessmentStatus::Valid),
        ("2026-07-27", MetrologyAssessmentStatus::DueSoon),
        ("2026-07-28", MetrologyAssessmentStatus::Expired),
    ] {
        let assessment = assess_metrology(
            MetrologyDate::parse_iso(checked_on).unwrap(),
            CalibrationRequirement::Required,
            Some(CalibrationDecision::Conforming),
            calibrated_at,
            due_at,
            30,
        );
        assert_eq!(assessment.status, expected);
    }
}

#[test]
fn decision_and_requirement_precede_temporal_validity() {
    let checked_on = MetrologyDate::parse_iso("2026-07-27").unwrap();
    let future_due = Some(MetrologyDate::parse_iso("2027-07-27").unwrap());
    let calibrated_at = Some(MetrologyDate::parse_iso("2026-07-01").unwrap());
    assert_eq!(
        assess_metrology(
            checked_on,
            CalibrationRequirement::Required,
            Some(CalibrationDecision::Nonconforming),
            calibrated_at,
            future_due,
            30,
        )
        .status,
        MetrologyAssessmentStatus::Nonconforming
    );
    assert_eq!(
        assess_metrology(checked_on, CalibrationRequirement::NotRequired, None, None, None, 30)
            .status,
        MetrologyAssessmentStatus::NotRequired
    );
}

fn date(text: &str) -> MetrologyDate {
    MetrologyDate::parse_iso(text).unwrap()
}

#[test]
fn iso_dates_are_parsed_with_the_values_read_in_errors() {
    let d = MetrologyDate::parse_iso(" 2024-02-29 ").unwrap();
    assert_eq!((d.year(), d.month(), d.day()), (2024, 2, 29));
    assert_eq!(d.to_iso_string(), "2024-02-29");
    assert_eq!(
        MetrologyDate::parse_iso("2023-02-29").unwrap_err(),
        DomainError::InvalidMetrologyDate { year: 2023, month: 2, day: 29 }
    );
    assert_eq!(
        MetrologyDate::parse_iso("2023-2-28").unwrap_err(),
        DomainError::InvalidMetrologyDate { year: 0, month: 0, day: 0 }
    );
    assert_eq!(
        MetrologyDate::parse_iso("2023-xx-28").unwrap_err(),
        DomainError::InvalidMetrologyDate { year: 2023, month: 0, day: 0 }
    );
    assert_eq!(
        MetrologyDate::parse_iso("2023-05-x1").unwrap_err(),
        DomainError::InvalidMetrologyDate { year: 2023, month: 5, day: 0 }
    );
    assert_eq!(MetrologyDate::parse_iso("2023-+5-01").unwrap(), date("2023-05-01"));
    assert_eq!(
        MetrologyDate::parse_iso("1899-12-31").unwrap_err(),
        DomainError::InvalidMetrologyDate { year: 1899, month: 12, day: 31 }
    );
    assert!(MetrologyDate::new(2026, 13, 1).is_err());
    assert_eq!(MetrologyDate::new(2026, 7, 27).unwrap(), date("2026-07-27"));
}

#[test]
fn days_until_counts_civil_days() {
    assert_eq!(date("2026-07-27").days_until(date("2026-07-28")), 1);
    assert_eq!(date("2024-02-28").days_until(date("2024-03-01")), 2);
    assert_eq!(date("2023-02-28").days_until(date("2023-03-01")), 1);
    assert_eq!(date("2025-07-27").days_until(date("2026-07-27")), 365);
    assert_eq!(date("2026-07-27").days_until(date("2025-07-27")), -365);
    assert_eq!(date("1900-01-01").days_until(date("2000-01-01")), 36524);
    assert!(date("2025-12-31").is_before(&date("2026-01-01")));
}

#[test]
fn assessment_reasons_and_blocking_follow_the_status() {
    let checked_on = date("2026-07-27");
    let missing = assess_metrology(checked_on, CalibrationRequirement::Required, None, None, None, 30);
    assert_eq!(missing.status, MetrologyAssessmentStatus::Missing);
    assert!(missing.blocking);
    assert_eq!(missing.reasons, vec![MetrologyAssessmentReasonCode::CalibrationMissing]);
    let no_dates = assess_metrology(
        checked_on,
        CalibrationRequirement::Conditional,
        Some(CalibrationDecision::Conforming),
        None,
        Some(date("2027-01-01")),
        30,
    );
    assert_eq!(no_dates.status, MetrologyAssessmentStatus::Indeterminate);
    assert!(no_dates.blocking);
    let unavailable = MetrologyAssessment::unavailable(checked_on, 30);
    assert_eq!(unavailable.status, MetrologyAssessmentStatus::Unavailable);
    assert!(unavailable.blocking);
    assert_eq!(
        unavailable.reasons,
        vec![MetrologyAssessmentReasonCode::MetrologySourceUnavailable]
    );
}

fn receiver(code: &str, requirement: CalibrationRequirement) -> InstrumentRecord {
    InstrumentRecord::new(
        InstrumentCode::parse(code).unwrap(),
        InstrumentFamily::Receiver,
        " Rohde & Schwarz ",
        "ESW",
        "SN-1",
        requirement,
    )
    .unwrap()
}

#[test]
fn registry_tracks_instruments_and_latest_calibrations() {
    let mut registry = MetrologyRegistry::new();
    registry.register_instrument(receiver("REC-001", CalibrationRequirement::Required)).unwrap();
    assert_eq!(
        registry
            .register_instrument(receiver("REC-001", CalibrationRequirement::Required))
            .unwrap_err(),
        DomainError::DuplicateInstrumentCode("REC-001".to_owned())
    );
    let code = InstrumentCode::parse("REC-001").unwrap();
    assert_eq!(registry.instrument(&code).unwrap().manufacturer(), "Rohde & Schwarz");
    let older = CalibrationRecord::new(
        code.clone(),
        "CERT-1",
        date("2025-01-10"),
        date("2026-01-10"),
        "Lab A",
    )
    .unwrap();
    let newer = CalibrationRecord::new(
        code.clone(),
        "CERT-2",
        date("2025-08-01"),
        date("2026-08-01"),
        "Lab B",
    )
    .unwrap();
    registry.record_calibration(newer).unwrap();
    registry.record_calibration(older).unwrap();
    assert_eq!(
        registry.latest_calibration_for(&code).unwrap().certificate_reference(),
        "CERT-2"
    );
    let unknown = CalibrationRecord::new(
        InstrumentCode::parse("GEN-9").unwrap(),
        "CERT-9",
        date("2025-08-01"),
        date("2026-08-01"),
        "Lab",
    )
    .unwrap();
    assert_eq!(
        registry.record_calibration(unknown).unwrap_err(),
        DomainError::UnknownInstrumentCode("GEN-9".to_owned())
    );
    assert_eq!(
        registry.calibration_status(&code, date("2026-07-15")).unwrap(),
        CalibrationStatus::DueSoon
    );
    assert_eq!(
        registry.calibration_status(&code, date("2026-06-01")).unwrap(),
        CalibrationStatus::Valid
    );
    assert_eq!(
        registry.calibration_status_with_warning_days(&code, date("2026-08-02"), 10).unwrap(),
        CalibrationStatus::Expired
    );
    assert_eq!(DEFAULT_CALIBRATION_DUE_SOON_WARNING_DAYS, 30);
    assert_eq!(
        CalibrationRecord::new(code.clone(), "C", date("2026-01-02"), date("2026-01-01"), "L")
            .unwrap_err(),
        DomainError::InvalidCalibrationPeriod
    );
}

#[test]
fn readiness_depends_on_the_execution_mode() {
    let mut registry = MetrologyRegistry::new();
    registry.register_instrument(receiver("REC-001", CalibrationRequirement::Required)).unwrap();
    registry.register_instrument(receiver("AMP-001", CalibrationRequirement::NotRequired)).unwrap();
    registry
        .instrument_mut(&InstrumentCode::parse("AMP-001").unwrap())
        .unwrap()
        .set_serviceability(InstrumentServiceability::Retired);
    let requested = vec![
        InstrumentCode::parse("REC-001").unwrap(),
        InstrumentCode::parse("AMP-001").unwrap(),
        InstrumentCode::parse("ANT-404").unwrap(),
    ];
    let accredited = registry.assess_equipment_readiness(
        &requested,
        ExecutionMode::Accredited,
        date("2026-07-27"),
    );
    let kinds: Vec<(EquipmentIssueKind, bool)> = accredited
        .issues()
        .iter()
        .map(|issue| (issue.kind(), issue.is_blocking()))
        .collect();
    assert_eq!(
        kinds,
        vec![
            (EquipmentIssueKind::CalibrationMissing, true),
            (EquipmentIssueKind::OutOfService, true),
            (EquipmentIssueKind::MissingInstrument, true),
        ]
    );
    assert!(!accredited.is_ready());
    assert_eq!(accredited.blocking_issues().len(), 3);
    let investigation = registry.assess_equipment_readiness(
        &requested[..1],
        ExecutionMode::Investigation,
        date("2026-07-27"),
    );
    assert_eq!(investigation.issues().len(), 1);
    assert!(!investigation.issues()[0].is_blocking());
    assert!(investigation.is_ready());
    assert_eq!(investigation.mode(), ExecutionMode::Investigation);
}

#[test]
fn iso_text_reads_back_and_ignores_surrounding_blanks() {
    for (year, month, day) in [(1900u16, 1u8, 1u8), (2024, 2, 29), (9999, 12, 31)] {
        let date = MetrologyDate::new(year, month, day).unwrap();
        assert_eq!(MetrologyDate::parse_iso(&date.to_iso_string()), Ok(date));
    }
    assert_eq!(
        MetrologyDate::parse_iso(" \t2026-07-27\n"),
        MetrologyDate::parse_iso("2026-07-27")
    );
    assert!(MetrologyDate::parse_iso("2026-7-27").is_err());
}
