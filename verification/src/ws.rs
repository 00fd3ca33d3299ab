//! The live-update protocol spoken over a WebSocket: what the server does
//! for each command a client sends.
use vstd::prelude::*;
use crate::response::Reply;
use crate::text::{chars_eq, chars_of, extend_chars, string_of};

verus! {

/// What the server does for a client command.
#[derive(PartialEq, Eq, Structural, Debug, Clone, Copy)]
pub enum WsCommand {
    /// Answer with a `pong` update.
    Ping,
    /// Add one to the user's counter and send the new value.
    IncrementCounter,
    /// Nothing.
    Ignore,
}

/// The command an action names: `ping`, `increment_counter`, or another.
pub open spec fn command_of(action: Seq<char>) -> WsCommand {
    if action == "ping"@ {
        WsCommand::Ping
    } else if action == "increment_counter"@ {
        WsCommand::IncrementCounter
    } else {
        WsCommand::Ignore
    }
}

/// The command the action of a client message names.
pub fn ws_command(action: &str) -> (c: WsCommand)
    ensures
        c == command_of(action@),
{
    let a = chars_of(action);
    if chars_eq(&a, &chars_of("ping")) {
        WsCommand::Ping
    } else if chars_eq(&a, &chars_of("increment_counter")) {
        WsCommand::IncrementCounter
    } else {
        WsCommand::Ignore
    }
}

/// The greeting a user gets when the connection opens.
pub fn welcome_text(user: &str) -> (r: String)
    ensures
        r@ == "Welcome, "@ + user@,
{
    let mut out = chars_of("Welcome, ");
    extend_chars(&mut out, &chars_of(user));
    string_of(&out)
}

/// Why a connection could not be switched to the WebSocket protocol.
pub enum UpgradeFailure {
    /// The request does not ask for the switch.
    NotRequested,
    /// The handshake headers are missing or wrong.
    Handshake,
}

/// The message that explains an upgrade failure.
pub open spec fn upgrade_failure_text(f: UpgradeFailure) -> Seq<char> {
    match f {
        UpgradeFailure::NotRequested => "Expected WebSocket upgrade request"@,
        UpgradeFailure::Handshake => "WebSocket upgrade error"@,
    }
}

/// The answer to a request whose upgrade failed: `400 Bad Request` saying why.
pub fn upgrade_failure_reply(f: UpgradeFailure) -> (r: Reply)
    ensures
        r@ == (400u16, None::<Seq<char>>, Seq::<(Seq<char>, Seq<char>)>::empty(), upgrade_failure_text(f)),
{
    let body = match f {
        UpgradeFailure::NotRequested => "Expected WebSocket upgrade request".to_owned(),
        UpgradeFailure::Handshake => "WebSocket upgrade error".to_owned(),
    };
    let r = Reply { status: 400, content_type: None, headers: Vec::new(), body };
    assert(r@.2 =~= Seq::<(Seq<char>, Seq<char>)>::empty());
    r
}

} // verus!
