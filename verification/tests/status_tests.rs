use chatbridge::status::classify_status;
use chatbridge::status::init_reports_active;
use chatbridge::status::interpret_aux_result;
use chatbridge::status::parse_player_list;
use chatbridge::status::AuxQueryOutcome;
use chatbridge::status::ServiceStatus;
use chatbridge::status::StatusError;

#[test]
fn parses_two_player_listing() {
    let out = b"There are 2 of a max of 20 players online: Alice, Bob";
    let info = parse_player_list(out).expect("well-formed listing");
    assert_eq!(info.current_players, 2);
    assert_eq!(info.max_players, 20);
    assert_eq!(info.player_names, vec![b"Alice".to_vec(), b"Bob".to_vec()]);
}

#[test]
fn classifies_running_from_listing() {
    let out = b"There are 2 of a max of 20 players online: Alice, Bob".to_vec();
    let status = classify_status(true, Some(AuxQueryOutcome::Output(out))).expect("probe succeeds");
    match status {
        ServiceStatus::Running { current_players, max_players, player_names } => {
            assert_eq!(current_players, 2);
            assert_eq!(max_players, 20);
            assert_eq!(player_names, vec![b"Alice".to_vec(), b"Bob".to_vec()]);
        }
        other => panic!("expected Running, got {:?}", other),
    }
}

#[test]
fn classifies_starting_on_connection_failure() {
    let status = classify_status(true, Some(AuxQueryOutcome::ConnectionFailure))
        .expect("probe succeeds");
    assert!(matches!(status, ServiceStatus::Starting));
}

#[test]
fn classifies_inactive_without_aux_query() {
    let status = classify_status(false, None).expect("probe succeeds");
    assert!(matches!(status, ServiceStatus::Inactive));
}

#[test]
fn single_player_listing() {
    let out = b"There are 1 of a max of 8 players online: Carol";
    let info = parse_player_list(out).expect("well-formed listing");
    assert_eq!(info.current_players, 1);
    assert_eq!(info.max_players, 8);
    assert_eq!(info.player_names, vec![b"Carol".to_vec()]);
}

#[test]
fn empty_player_listing() {
    let out = b"There are 0 of a max of 20 players online: ";
    let info = parse_player_list(out).expect("well-formed listing");
    assert_eq!(info.current_players, 0);
    assert_eq!(info.max_players, 20);
    assert_eq!(info.player_names, Vec::<Vec<u8>>::new());
}

#[test]
fn listing_without_digits_is_malformed() {
    assert!(parse_player_list(b"players online: Alice").is_none());
}

#[test]
fn listing_with_one_count_is_malformed() {
    assert!(parse_player_list(b"There are 2 players online: Alice").is_none());
}

#[test]
fn listing_without_name_separator_is_malformed() {
    assert!(parse_player_list(b"There are 2 of a max of 20 players online").is_none());
}

#[test]
fn listing_with_oversized_count_is_malformed() {
    let out = b"There are 99999999999999999999 of a max of 20 players online: Alice";
    assert!(parse_player_list(out).is_none());
}

#[test]
fn count_boundary_at_the_largest_value() {
    let out = b"There are 18446744073709551615 of a max of 20 players online: Alice";
    let info = parse_player_list(out).expect("the value still fits");
    assert_eq!(info.current_players, u64::MAX);

    let out = b"There are 18446744073709551616 of a max of 20 players online: Alice";
    assert!(parse_player_list(out).is_none());
}

#[test]
fn leading_zeros_keep_the_value_small() {
    let out = b"There are 000000000000000000000002 of a max of 20 players online: Alice";
    let info = parse_player_list(out).expect("well-formed listing");
    assert_eq!(info.current_players, 2);
}

#[test]
fn malformed_listing_is_reported_as_error() {
    let out = b"no counts here".to_vec();
    let r = classify_status(true, Some(AuxQueryOutcome::Output(out)));
    assert_eq!(r.unwrap_err(), StatusError::MalformedListOutput);
}

#[test]
fn connection_failure_marker_wins_over_output() {
    let r = interpret_aux_result(
        b"whatever".to_vec(),
        b"mcrcon: Connection failed.\nerror 111\n",
    );
    assert!(matches!(r, AuxQueryOutcome::ConnectionFailure));
}

#[test]
fn clean_stderr_passes_output_through() {
    let r = interpret_aux_result(b"listing".to_vec(), b"");
    match r {
        AuxQueryOutcome::Output(o) => assert_eq!(o, b"listing".to_vec()),
        AuxQueryOutcome::ConnectionFailure => panic!("expected output"),
    }
}

#[test]
fn active_answer_is_recognized() {
    assert!(init_reports_active(b"active\n"));
    assert!(!init_reports_active(b"inactive\n"));
    assert!(!init_reports_active(b"active"));
    assert!(!init_reports_active(b"activating\n"));
}
