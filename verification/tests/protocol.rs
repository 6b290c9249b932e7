use dkls23_lockness::protocol::{validate_participant_set, validate_party_configuration};
use dkls23_lockness::Error;

#[test]
fn rejects_zero_threshold() {
    assert!(validate_party_configuration(3, 0, 0).is_err());
}

#[test]
fn rejects_threshold_above_n() {
    assert!(validate_party_configuration(2, 3, 0).is_err());
}

#[test]
fn rejects_out_of_range_party_index() {
    assert!(validate_party_configuration(3, 2, 3).is_err());
}

#[test]
fn accepts_valid_configuration() {
    assert!(validate_party_configuration(3, 2, 1).is_ok());
}

#[test]
fn rejects_duplicate_participants() {
    assert!(validate_participant_set(3, &[0, 1, 1]).is_err());
}

#[test]
fn rejects_incomplete_participants() {
    assert!(validate_participant_set(3, &[0, 1]).is_err());
}

#[test]
fn accepts_complete_unique_participants() {
    assert!(validate_participant_set(3, &[0, 1, 2]).is_ok());
}

#[test]
fn configuration_error_carries_its_inputs() {
    assert!(matches!(
        validate_party_configuration(0, 1, 0),
        Err(Error::InvalidConfiguration { n: 0, threshold: 1, party_index: 0 })
    ));
    assert!(matches!(
        validate_party_configuration(4, 4, 3),
        Ok(())
    ));
}

#[test]
fn participant_set_error_reports_length() {
    assert!(matches!(
        validate_participant_set(2, &[5, 5]),
        Err(Error::InvalidParticipantSet { expected: 2, found: 2 })
    ));
    assert!(matches!(
        validate_participant_set(2, &[0, 1, 2]),
        Err(Error::InvalidParticipantSet { expected: 2, found: 3 })
    ));
    assert!(validate_participant_set(0, &[]).is_ok());
}
