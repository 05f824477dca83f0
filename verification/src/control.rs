//! The daemon's control socket protocol and the VM restart lease.
//!
//! A client sends one command line; `PREPARE_RESTART` puts the VM in the
//! `Restarting` state for a 60-second lease and is answered `OK`, any other
//! command is answered `PONG`. When the lease ends, a VM still restarting is
//! set back to `Running`.
use vstd::prelude::*;
use crate::events::VmState;
use crate::middleware::{self, RestartGate};
use crate::text;

verus! {

/// The bytes a client writes to announce a restart: `PREPARE_RESTART` and a
/// newline, UTF-8 encoded.
pub fn prepare_restart_request() -> (r: Vec<u8>)
    ensures
        r@ == vstd::utf8::encode_utf8("PREPARE_RESTART\n"@),
{
    vstd::slice::slice_to_vec("PREPARE_RESTART\n".as_bytes())
}

/// The bytes a client writes to probe liveness: `PING` and a newline.
pub fn ping_request() -> (r: Vec<u8>)
    ensures
        r@ == vstd::utf8::encode_utf8("PING\n"@),
{
    vstd::slice::slice_to_vec("PING\n".as_bytes())
}

/// Seconds that a restart announcement holds the VM in `Restarting`.
pub const RESTART_LEASE_SECS: u64 = 60;

/// A command read from the control socket.
#[derive(Clone, Copy, Debug, PartialEq, Eq, Structural)]
pub enum ControlCommand {
    PrepareRestart,
    Other,
}

/// The command that a read from the control socket carries: `PREPARE_RESTART`
/// when the bytes are UTF-8 that trims to exactly that word.
pub open spec fn command_of(bytes: Seq<u8>) -> ControlCommand {
    if vstd::utf8::valid_utf8(bytes) && text::trim(vstd::utf8::decode_utf8(bytes))
        == "PREPARE_RESTART"@ {
        ControlCommand::PrepareRestart
    } else {
        ControlCommand::Other
    }
}

/// Reads the command from the bytes received on the control socket.
pub fn parse_control_command(bytes: &[u8]) -> (r: ControlCommand)
    ensures
        r == command_of(bytes@),
{
    match text::utf8_text(bytes) {
        Some(s) => {
            let t = text::trimmed_chars(s.as_str());
            let want = text::chars_of("PREPARE_RESTART");
            if text::chars_eq(t.as_slice(), want.as_slice()) {
                ControlCommand::PrepareRestart
            } else {
                ControlCommand::Other
            }
        },
        None => ControlCommand::Other,
    }
}

/// What the daemon does for one control command.
#[derive(Clone, Debug)]
pub struct ControlOutcome {
    /// The VM state after the command.
    pub state: VmState,
    /// The reply written back to the client.
    pub reply: Vec<u8>,
    /// The restart lease to start, in seconds, if any.
    pub lease_secs: Option<u64>,
}

/// The VM state after command `cmd` in state `state`.
pub open spec fn next_state(state: VmState, cmd: ControlCommand) -> VmState {
    match cmd {
        ControlCommand::PrepareRestart => VmState::Restarting,
        ControlCommand::Other => state,
    }
}

/// The reply to command `cmd`: `OK` for a restart announcement, `PONG` for
/// anything else, each followed by a newline.
pub open spec fn reply_to(cmd: ControlCommand) -> Seq<u8> {
    match cmd {
        ControlCommand::PrepareRestart => vstd::utf8::encode_utf8("OK\n"@),
        ControlCommand::Other => vstd::utf8::encode_utf8("PONG\n"@),
    }
}

/// The VM state when a restart lease ends: a VM still restarting returns to
/// `Running`; any other state stays.
pub open spec fn state_after_lease(state: VmState) -> VmState {
    match state {
        VmState::Restarting => VmState::Running,
        _ => state,
    }
}

/// Handles one control command in VM state `state`.
pub fn control_step(state: VmState, cmd: ControlCommand) -> (r: ControlOutcome)
    ensures
        r.state == next_state(state, cmd),
        r.reply@ == reply_to(cmd),
        cmd is PrepareRestart ==> r.lease_secs == Some(RESTART_LEASE_SECS),
        cmd is Other ==> r.lease_secs is None,
{
    match cmd {
        ControlCommand::PrepareRestart => {
            let reply = vstd::slice::slice_to_vec("OK\n".as_bytes());
            ControlOutcome { state: VmState::Restarting, reply, lease_secs: Some(RESTART_LEASE_SECS) }
        },
        ControlCommand::Other => {
            let reply = vstd::slice::slice_to_vec("PONG\n".as_bytes());
            ControlOutcome { state, reply, lease_secs: None }
        },
    }
}

/// The VM state when a restart lease ends.
pub fn lease_expired(state: VmState) -> (r: VmState)
    ensures
        r == state_after_lease(state),
{
    match state {
        VmState::Restarting => VmState::Running,
        other => other,
    }
}

/// Whether the daemon's reply to a restart announcement acknowledges it:
/// UTF-8 text starting with `OK`.
pub fn restart_acknowledged(reply: &[u8]) -> (r: bool)
    ensures
        r == (vstd::utf8::valid_utf8(reply@) && text::starts_with(
            vstd::utf8::decode_utf8(reply@),
            "OK"@,
        )),
{
    match text::utf8_text(reply) {
        Some(s) => {
            let cs = text::chars_of(s.as_str());
            let ok = text::chars_of("OK");
            text::chars_start_with(cs.as_slice(), ok.as_slice())
        },
        None => {
            proof {
                assert(!vstd::utf8::valid_utf8(reply@));
            }
            false
        },
    }
}

/// Reads a process id from the text of a pid file: the trimmed text as a
/// decimal `u32`.
pub fn parse_pid(contents: &str) -> (r: Option<u32>)
    ensures
        r matches Some(p) ==> text::parse_unsigned(text::trim(contents@), u32::MAX as int) == Some(
            p as int,
        ),
        r is None ==> text::parse_unsigned(text::trim(contents@), u32::MAX as int) is None,
{
    let t = text::trimmed_chars(contents);
    match text::parse_unsigned_bounded(t.as_slice(), u32::MAX as u64) {
        Some(v) => Some(v as u32),
        None => None,
    }
}

/// A restart announcement closes the Docker API: whatever the state, after
/// `PREPARE_RESTART` every request is answered 503 with `Retry-After: 5`;
/// when the lease then ends, requests pass again.
pub proof fn lemma_restart_announcement_gates_requests(state: VmState)
    ensures
        middleware::gate_for(next_state(state, ControlCommand::PrepareRestart))
            == (RestartGate::Reject { status: 503, retry_after_secs: 5 }),
        middleware::gate_for(
            state_after_lease(next_state(state, ControlCommand::PrepareRestart)),
        ) == RestartGate::PassThrough,
{
}

/// Any command other than a restart announcement leaves the VM state, and so
/// whether requests pass, as it was.
pub proof fn lemma_other_commands_keep_state(state: VmState)
    ensures
        next_state(state, ControlCommand::Other) == state,
        middleware::gate_for(next_state(state, ControlCommand::Other)) == middleware::gate_for(
            state,
        ),
{
}

/// A lease ending never leaves the VM restarting.
pub proof fn lemma_lease_end_leaves_restarting(state: VmState)
    ensures
        !(state_after_lease(state) is Restarting),
        !(state is Restarting) ==> state_after_lease(state) == state,
{
}

/// The request that a client writes to announce a restart is read by the
/// daemon as `PREPARE_RESTART`, and the liveness probe as another command.
pub proof fn lemma_requests_are_understood()
    ensures
        command_of(vstd::utf8::encode_utf8("PREPARE_RESTART\n"@))
            == ControlCommand::PrepareRestart,
        command_of(vstd::utf8::encode_utf8("PING\n"@)) == ControlCommand::Other,
{
    broadcast use vstd::utf8::encode_utf8_decode_utf8, vstd::utf8::encode_utf8_valid_utf8;

    reveal_strlit("PREPARE_RESTART\n");
    reveal_strlit("PREPARE_RESTART");
    reveal_strlit("PING\n");
    let s = "PREPARE_RESTART\n"@;
    assert(text::trim_start(s) == s);
    assert(s.drop_last() =~= "PREPARE_RESTART"@);
    assert(text::trim_end("PREPARE_RESTART"@) == "PREPARE_RESTART"@);
    assert(text::trim_end(s) == "PREPARE_RESTART"@);
    let p = "PING\n"@;
    assert(text::trim_start(p) == p);
    assert(p.drop_last() =~= seq!['P', 'I', 'N', 'G']);
    assert(text::trim_end(seq!['P', 'I', 'N', 'G']) == seq!['P', 'I', 'N', 'G']);
    assert(text::trim(p) != "PREPARE_RESTART"@);
}

} // verus!
