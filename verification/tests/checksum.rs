use emc_locus::checksum::sha256_checksum;
use emc_locus::planned_test_preparation::CanonicalPlannedTestPreparationDefinition;
use emc_locus::station_setup::CanonicalStationMeasurementSetupDefinition;

#[test]
fn checksum_is_the_lowercase_sha256_digest_of_the_bytes() {
    assert_eq!(
        sha256_checksum(b""),
        "sha256:e3b0c44298fc1c149afbf4c8996fb92427ae41e4649b934ca495991b7852b855"
    );
    assert_eq!(
        sha256_checksum(b"abc"),
        "sha256:ba7816bf8f01cfea414140de5dae2223b00361a396177a9cb410ff61f20015ad"
    );
    let text = sha256_checksum("émission".as_bytes());
    assert_eq!(text.len(), 71);
    assert!(text[7..].bytes().all(|b| b.is_ascii_digit() || (b'a'..=b'f').contains(&b)));
}

#[test]
fn canonical_forms_carry_the_checksum_of_their_json() {
    let preparation = CanonicalPlannedTestPreparationDefinition::from_canonical_json(
        "emc-locus.planned-test-preparation.v1".to_owned(),
        "abc".to_owned(),
    );
    assert_eq!(preparation.canonical_json, "abc");
    assert_eq!(
        preparation.definition_checksum,
        "sha256:ba7816bf8f01cfea414140de5dae2223b00361a396177a9cb410ff61f20015ad"
    );
    let setup = CanonicalStationMeasurementSetupDefinition::from_canonical_json(
        "setup-rf-001".to_owned(),
        "Chaîne RF".to_owned(),
        "emc-locus.station-measurement-setup-definition.v2".to_owned(),
        String::new(),
    );
    assert_eq!(setup.setup_id, "setup-rf-001");
    assert_eq!(
        setup.definition_checksum,
        "sha256:e3b0c44298fc1c149afbf4c8996fb92427ae41e4649b934ca495991b7852b855"
    );
}
