use mpris_bridge::command::command_permitted;
use mpris_bridge::command::dispatch_decision;
use mpris_bridge::command::outcome_of_attempt;
use mpris_bridge::command::outcome_status;
use mpris_bridge::command::response_line;
use mpris_bridge::command::CommandCapabilities;
use mpris_bridge::command::CommandOutcome;
use mpris_bridge::command::TransportCommand;

fn all_capabilities() -> CommandCapabilities {
    CommandCapabilities {
        can_pause: true,
        can_seek: true,
        can_go_next: true,
        can_go_previous: true,
    }
}

fn every_command() -> Vec<TransportCommand> {
    vec![
        TransportCommand::PlayPause,
        TransportCommand::Seek(5000),
        TransportCommand::Seek(-5000),
        TransportCommand::Next,
        TransportCommand::Previous,
    ]
}

#[test]
fn absent_player_is_not_found_for_every_command() {
    for cmd in every_command() {
        let outcome = dispatch_decision(false, &all_capabilities(), true, &cmd);
        assert!(matches!(outcome, CommandOutcome::NotFound));
        let outcome = dispatch_decision(false, &all_capabilities(), false, &cmd);
        assert!(matches!(outcome, CommandOutcome::NotFound));
    }
}

#[test]
fn seek_without_capability_is_rejected_never_success() {
    let caps = CommandCapabilities {
        can_pause: true,
        can_seek: false,
        can_go_next: true,
        can_go_previous: true,
    };
    let cmd = TransportCommand::Seek(5000);
    assert!(!command_permitted(&caps, &cmd));
    let outcome = dispatch_decision(true, &caps, true, &cmd);
    assert!(matches!(outcome, CommandOutcome::Rejected));
    let outcome = dispatch_decision(true, &caps, false, &cmd);
    assert!(matches!(outcome, CommandOutcome::Rejected));
}

#[test]
fn permitted_command_over_healthy_transport_succeeds() {
    for cmd in every_command() {
        let outcome = dispatch_decision(true, &all_capabilities(), true, &cmd);
        assert!(matches!(outcome, CommandOutcome::Success));
    }
}

#[test]
fn transport_failure_is_reported_as_such() {
    let outcome = dispatch_decision(true, &all_capabilities(), false, &TransportCommand::Next);
    assert!(matches!(outcome, CommandOutcome::TransportError));
}

#[test]
fn capability_gates_match_their_commands() {
    let caps = CommandCapabilities {
        can_pause: false,
        can_seek: true,
        can_go_next: false,
        can_go_previous: true,
    };
    assert!(!command_permitted(&caps, &TransportCommand::PlayPause));
    assert!(command_permitted(&caps, &TransportCommand::Seek(1)));
    assert!(!command_permitted(&caps, &TransportCommand::Next));
    assert!(command_permitted(&caps, &TransportCommand::Previous));
}

#[test]
fn checked_attempt_maps_onto_the_taxonomy() {
    assert!(matches!(
        outcome_of_attempt(&Ok(true)),
        CommandOutcome::Success
    ));
    assert!(matches!(
        outcome_of_attempt(&Ok(false)),
        CommandOutcome::Rejected
    ));
    assert!(matches!(
        outcome_of_attempt(&Err(String::from("bus gone"))),
        CommandOutcome::TransportError
    ));
}

#[test]
fn statuses_follow_the_fixed_table() {
    assert_eq!(outcome_status(&CommandOutcome::Success), 200);
    assert_eq!(outcome_status(&CommandOutcome::Rejected), 400);
    assert_eq!(outcome_status(&CommandOutcome::NotFound), 404);
    assert_eq!(outcome_status(&CommandOutcome::TransportError), 500);
}

#[test]
fn response_lines_are_deterministic() {
    assert_eq!(
        response_line(&CommandOutcome::Success, &TransportCommand::Next),
        "Operation successfull\n"
    );
    assert_eq!(
        response_line(&CommandOutcome::NotFound, &TransportCommand::Seek(1)),
        "Player not found\n"
    );
    assert_eq!(
        response_line(&CommandOutcome::Rejected, &TransportCommand::PlayPause),
        "Cannot play/pause\n"
    );
    assert_eq!(
        response_line(&CommandOutcome::Rejected, &TransportCommand::Seek(1)),
        "Cannot seek\n"
    );
    assert_eq!(
        response_line(&CommandOutcome::Rejected, &TransportCommand::Next),
        "Cannot go to next track\n"
    );
    assert_eq!(
        response_line(&CommandOutcome::Rejected, &TransportCommand::Previous),
        "Cannot go to previous track\n"
    );
    assert_eq!(
        response_line(&CommandOutcome::TransportError, &TransportCommand::Next),
        "Transport failure\n"
    );
}
