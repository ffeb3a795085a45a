//! The command dispatcher: one transport command against one resolved
//! player, answered out of a fixed taxonomy.  An absent player is
//! `NotFound` whatever the command; an operation the player's capabilities
//! do not permit is `Rejected`, never a silent success; a control-bus
//! failure is `TransportError`; everything else is `Success`.

use vstd::prelude::*;

verus! {

/// One transport command.  Seek carries a signed relative offset in
/// microseconds; no clamping happens at this layer.
pub enum TransportCommand {
    PlayPause,
    Seek(i64),
    Next,
    Previous,
}

/// The capability flags that gate the four commands.
pub struct CommandCapabilities {
    pub can_pause: bool,
    pub can_seek: bool,
    pub can_go_next: bool,
    pub can_go_previous: bool,
}

/// The fixed response taxonomy of a command.
pub enum CommandOutcome {
    Success,
    Rejected,
    NotFound,
    TransportError,
}

/// Whether the capabilities permit the command.
pub open spec fn permitted_spec(caps: CommandCapabilities, cmd: TransportCommand) -> bool {
    match cmd {
        TransportCommand::PlayPause => caps.can_pause,
        TransportCommand::Seek(_) => caps.can_seek,
        TransportCommand::Next => caps.can_go_next,
        TransportCommand::Previous => caps.can_go_previous,
    }
}

/// The outcome of one dispatch, as a function of what the outside world
/// reported: whether the player resolved, which capabilities it announced,
/// and whether the transport carried the operation.
pub open spec fn dispatch_spec(
    resolved: bool,
    caps: CommandCapabilities,
    transport_ok: bool,
    cmd: TransportCommand,
) -> CommandOutcome {
    if !resolved {
        CommandOutcome::NotFound
    } else if !permitted_spec(caps, cmd) {
        CommandOutcome::Rejected
    } else if !transport_ok {
        CommandOutcome::TransportError
    } else {
        CommandOutcome::Success
    }
}

/// Whether the capabilities permit the command.
pub fn command_permitted(caps: &CommandCapabilities, cmd: &TransportCommand) -> (r: bool)
    ensures
        r == permitted_spec(*caps, *cmd),
{
    match cmd {
        TransportCommand::PlayPause => caps.can_pause,
        TransportCommand::Seek(_) => caps.can_seek,
        TransportCommand::Next => caps.can_go_next,
        TransportCommand::Previous => caps.can_go_previous,
    }
}

/// Decides one dispatch from the reported facts alone.
pub fn dispatch_decision(
    resolved: bool,
    caps: &CommandCapabilities,
    transport_ok: bool,
    cmd: &TransportCommand,
) -> (r: CommandOutcome)
    ensures
        r == dispatch_spec(resolved, *caps, transport_ok, *cmd),
{
    if !resolved {
        CommandOutcome::NotFound
    } else if !command_permitted(caps, cmd) {
        CommandOutcome::Rejected
    } else if !transport_ok {
        CommandOutcome::TransportError
    } else {
        CommandOutcome::Success
    }
}

/// Maps the answer of a capability-checked operation — permitted-and-sent,
/// not permitted, or a failed transport — onto the taxonomy, for a player
/// that did resolve.
pub fn outcome_of_attempt(attempt: &Result<bool, String>) -> (r: CommandOutcome)
    ensures
        attempt matches Ok(true) ==> r is Success,
        attempt matches Ok(false) ==> r is Rejected,
        attempt is Err ==> r is TransportError,
{
    match attempt {
        Ok(true) => CommandOutcome::Success,
        Ok(false) => CommandOutcome::Rejected,
        Err(_) => CommandOutcome::TransportError,
    }
}

/// A command aimed at an absent player is answered `NotFound`, whatever
/// the command and whatever the rest of the world reports.
pub proof fn lemma_absent_player_not_found(
    caps: CommandCapabilities,
    transport_ok: bool,
    cmd: TransportCommand,
)
    ensures
        dispatch_spec(false, caps, transport_ok, cmd) is NotFound,
{
}

/// A command the capabilities do not permit is `Rejected` when the player
/// resolved, and in no case `Success`: capability gating cannot be bypassed
/// by a healthy transport.
pub proof fn lemma_unpermitted_never_succeeds(
    resolved: bool,
    caps: CommandCapabilities,
    transport_ok: bool,
    cmd: TransportCommand,
)
    requires
        !permitted_spec(caps, cmd),
    ensures
        resolved ==> dispatch_spec(resolved, caps, transport_ok, cmd) is Rejected,
        !(dispatch_spec(resolved, caps, transport_ok, cmd) is Success),
{
}

/// The HTTP status of an outcome: 200 success, 400 rejected, 404 not
/// found, 500 transport failure.
pub open spec fn outcome_status_spec(outcome: CommandOutcome) -> u16 {
    match outcome {
        CommandOutcome::Success => 200u16,
        CommandOutcome::Rejected => 400u16,
        CommandOutcome::NotFound => 404u16,
        CommandOutcome::TransportError => 500u16,
    }
}

/// The HTTP status of an outcome.
pub fn outcome_status(outcome: &CommandOutcome) -> (code: u16)
    ensures
        code == outcome_status_spec(*outcome),
{
    match outcome {
        CommandOutcome::Success => 200,
        CommandOutcome::Rejected => 400,
        CommandOutcome::NotFound => 404,
        CommandOutcome::TransportError => 500,
    }
}

/// The plain-text body for a rejected command.
pub open spec fn rejected_line_spec(cmd: TransportCommand) -> Seq<char> {
    match cmd {
        TransportCommand::PlayPause => "Cannot play/pause\n"@,
        TransportCommand::Seek(_) => "Cannot seek\n"@,
        TransportCommand::Next => "Cannot go to next track\n"@,
        TransportCommand::Previous => "Cannot go to previous track\n"@,
    }
}

/// The deterministic status-and-text pair of an outcome.
pub open spec fn response_line_spec(outcome: CommandOutcome, cmd: TransportCommand) -> Seq<char> {
    match outcome {
        CommandOutcome::Success => "Operation successfull\n"@,
        CommandOutcome::Rejected => rejected_line_spec(cmd),
        CommandOutcome::NotFound => "Player not found\n"@,
        CommandOutcome::TransportError => "Transport failure\n"@,
    }
}

/// The plain-text line a command endpoint answers with.
pub fn response_line(outcome: &CommandOutcome, cmd: &TransportCommand) -> (r: String)
    ensures
        r@ == response_line_spec(*outcome, *cmd),
{
    match outcome {
        CommandOutcome::Success => String::from_str("Operation successfull\n"),
        CommandOutcome::Rejected => match cmd {
            TransportCommand::PlayPause => String::from_str("Cannot play/pause\n"),
            TransportCommand::Seek(_) => String::from_str("Cannot seek\n"),
            TransportCommand::Next => String::from_str("Cannot go to next track\n"),
            TransportCommand::Previous => String::from_str("Cannot go to previous track\n"),
        },
        CommandOutcome::NotFound => String::from_str("Player not found\n"),
        CommandOutcome::TransportError => String::from_str("Transport failure\n"),
    }
}

} // verus!
