use emc_locus::repositories::{
    baseline_repository_domains, offline_field_snapshot_requirements, ConnectivityMode,
    FieldRepositoryPackage, RepositoryDomain, RepositoryPolicy, RepositorySnapshot,
    RepositorySnapshotId, RepositorySnapshotRequirement, SnapshotChecksum, SyncConflictId,
    SyncConflictKind, SyncConflictRecord, SyncConflictResolution, SyncConflictStatus,
    SyncDirection,
};
use emc_locus::DomainError;

fn snapshot(domain: RepositoryDomain, schema_version: u32, signed: bool) -> RepositorySnapshot {
    RepositorySnapshot::new(
        domain,
        RepositorySnapshotId::parse(&format!("snap-{}", domain.as_str())).unwrap(),
        schema_version,
        SnapshotChecksum::parse(" abc123 ").unwrap(),
        signed,
    )
    .unwrap()
}

fn complete_package() -> FieldRepositoryPackage {
    FieldRepositoryPackage::new(
        baseline_repository_domains()
            .into_iter()
            .map(|domain| snapshot(domain, 1, true))
            .collect(),
    )
    .unwrap()
}

#[test]
fn offline_field_work_keeps_local_copies_of_every_domain() {
    for domain in baseline_repository_domains() {
        let policy = RepositoryPolicy::new(domain, ConnectivityMode::OfflineField);
        assert!(policy.local_snapshot_required());
        assert_eq!(policy.domain(), domain);
    }
    let templates = RepositoryPolicy::new(RepositoryDomain::ReportTemplates, ConnectivityMode::Connected);
    assert!(!templates.local_snapshot_required());
    assert_eq!(templates.sync_direction(), SyncDirection::PullFromReference);
    let data = RepositoryPolicy::new(RepositoryDomain::MeasurementData, ConnectivityMode::Connected);
    assert!(data.local_snapshot_required());
    assert_eq!(data.sync_direction(), SyncDirection::Bidirectional);
    assert!(ConnectivityMode::OfflineField.requires_local_references());
    assert!(!ConnectivityMode::OfflineField.can_require_remote_login());
    assert!(ConnectivityMode::Connected.allows_measurement_acquisition());
}

#[test]
fn domains_have_stable_names_in_baseline_order() {
    let names: Vec<&str> = baseline_repository_domains()
        .into_iter()
        .map(RepositoryDomain::as_str)
        .collect();
    assert_eq!(
        names,
        vec![
            "metrology",
            "test_definitions",
            "instrument_drivers",
            "project_records",
            "measurement_data",
            "report_templates",
            "update_catalog"
        ]
    );
}

#[test]
fn identifiers_are_checked() {
    assert_eq!(RepositorySnapshotId::parse(" "), Err(DomainError::EmptyRepositorySnapshotId));
    assert_eq!(
        RepositorySnapshotId::parse(" snap 1 "),
        Err(DomainError::InvalidRepositorySnapshotId("snap 1".to_owned()))
    );
    assert_eq!(SyncConflictId::parse(""), Err(DomainError::EmptySyncConflictId));
    assert_eq!(
        SyncConflictId::parse("a/b"),
        Err(DomainError::InvalidSyncConflictId("a/b".to_owned()))
    );
    assert_eq!(SnapshotChecksum::parse("  "), Err(DomainError::EmptySnapshotChecksum));
    assert_eq!(
        RepositorySnapshot::new(
            RepositoryDomain::Metrology,
            RepositorySnapshotId::parse("s").unwrap(),
            0,
            SnapshotChecksum::parse("c").unwrap(),
            true
        ),
        Err(DomainError::InvalidRepositorySchemaVersion(0))
    );
    assert_eq!(
        RepositorySnapshotRequirement::new(RepositoryDomain::Metrology, 0, true),
        Err(DomainError::InvalidRepositorySchemaVersion(0))
    );
}

#[test]
fn conflicts_resolve_once_and_deferral_keeps_them_open_to_resolution() {
    let mut conflict = SyncConflictRecord::new(
        SyncConflictId::parse("conflict-1").unwrap(),
        RepositoryDomain::ProjectRecords,
        SyncConflictKind::ConcurrentUpdate,
        RepositorySnapshotId::parse("local-1").unwrap(),
        RepositorySnapshotId::parse("ref-1").unwrap(),
    );
    assert_eq!(conflict.status(), SyncConflictStatus::Open);
    assert_eq!(conflict.resolve(SyncConflictResolution::Defer), Ok(()));
    assert_eq!(conflict.status(), SyncConflictStatus::Deferred);
    assert_eq!(conflict.resolve(SyncConflictResolution::KeepLocal), Ok(()));
    assert_eq!(conflict.status(), SyncConflictStatus::Resolved);
    assert_eq!(conflict.resolution(), Some(SyncConflictResolution::KeepLocal));
    assert_eq!(
        conflict.resolve(SyncConflictResolution::KeepReference),
        Err(DomainError::SyncConflictAlreadyResolved("conflict-1".to_owned()))
    );
    assert_eq!(conflict.resolution(), Some(SyncConflictResolution::KeepLocal));
}

#[test]
fn complete_signed_package_satisfies_the_offline_requirements() {
    let package = complete_package();
    assert_eq!(package.validate(&offline_field_snapshot_requirements()), Ok(()));
    assert_eq!(offline_field_snapshot_requirements().len(), 7);
    assert_eq!(
        package.snapshot_for(RepositoryDomain::UpdateCatalog).unwrap().checksum().as_str(),
        "abc123"
    );
}

#[test]
fn package_refuses_two_snapshots_of_a_domain() {
    assert_eq!(
        FieldRepositoryPackage::new(vec![
            snapshot(RepositoryDomain::Metrology, 1, true),
            snapshot(RepositoryDomain::MeasurementData, 1, true),
            snapshot(RepositoryDomain::Metrology, 2, true),
        ]),
        Err(DomainError::DuplicateRepositorySnapshot("metrology".to_owned()))
    );
}

#[test]
fn validation_reports_the_first_unmet_requirement() {
    let package = FieldRepositoryPackage::new(vec![
        snapshot(RepositoryDomain::Metrology, 2, false),
        snapshot(RepositoryDomain::TestDefinitions, 1, true),
    ])
    .unwrap();
    let unsigned = RepositorySnapshotRequirement::new(RepositoryDomain::Metrology, 1, true).unwrap();
    let newer = RepositorySnapshotRequirement::new(RepositoryDomain::TestDefinitions, 3, false).unwrap();
    let missing = RepositorySnapshotRequirement::new(RepositoryDomain::UpdateCatalog, 1, false).unwrap();
    assert_eq!(
        package.validate(&[newer, unsigned]),
        Err(DomainError::IncompatibleRepositorySnapshot {
            domain: "test_definitions".to_owned(),
            minimum_schema_version: 3,
            actual_schema_version: 1
        })
    );
    assert_eq!(
        package.validate(&[unsigned, newer]),
        Err(DomainError::UnsignedRepositorySnapshot("metrology".to_owned()))
    );
    assert_eq!(
        package.validate(&[missing]),
        Err(DomainError::MissingRepositorySnapshot("update_catalog".to_owned()))
    );
    assert_eq!(package.validate(&[]), Ok(()));
    assert!(package.snapshot_for(RepositoryDomain::UpdateCatalog).is_none());
}
