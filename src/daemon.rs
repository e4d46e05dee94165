//! Decisions of the daemon transport: how requests are authenticated, what a submitted
//! file is sent as, and how startup proceeds from the outcome of a probe.
//!
//! The transport itself (HTTP, JSON, the child process) stays with the caller.

use vstd::prelude::*;

use crate::text::push_str;

verus! {

/// The port the daemon's RPC endpoint listens on.
pub const RPC_PORT: u16 = 6800;

/// The character of a six-bit value in the standard base64 alphabet.
pub open spec fn base64_digit(v: nat) -> char {
    if v < 26 {
        ((65 + v) as u8) as char
    } else if v < 52 {
        ((97 + v - 26) as u8) as char
    } else if v < 62 {
        ((48 + v - 52) as u8) as char
    } else if v == 62 {
        '+'
    } else {
        '/'
    }
}

/// The four characters of a 24-bit group, of which the last `pad` are '=' padding.
pub open spec fn base64_group(n: nat, pad: nat) -> Seq<char> {
    seq![
        base64_digit(n / 262144),
        base64_digit((n / 4096) % 64),
        if pad >= 2 { '=' } else { base64_digit((n / 64) % 64) },
        if pad >= 1 { '=' } else { base64_digit(n % 64) },
    ]
}

/// Standard base64 with padding: each three bytes become four characters; a last group
/// of one or two bytes is filled with zero bits and padded with '='.
pub open spec fn base64_of(data: Seq<u8>) -> Seq<char>
    decreases data.len(),
{
    if data.len() == 0 {
        Seq::empty()
    } else if data.len() == 1 {
        base64_group(data[0] as nat * 65536, 2)
    } else if data.len() == 2 {
        base64_group(data[0] as nat * 65536 + data[1] as nat * 256, 1)
    } else {
        base64_group(data[0] as nat * 65536 + data[1] as nat * 256 + data[2] as nat, 0) + base64_of(
            data.subrange(3, data.len() as int),
        )
    }
}

/// Relies on base64::Engine::encode with engine::general_purpose::STANDARD: the standard
/// alphabet with padding, four characters for every three bytes or part of three.
#[verifier::external_body]
fn base64_standard(data: &[u8]) -> (r: String)
    requires
        data@.len() <= usize::MAX / 2,
    ensures
        r@ == base64_of(data@),
        r@.len() == 4 * ((data@.len() + 2) / 3),
{
    base64::Engine::encode(&base64::engine::general_purpose::STANDARD, data)
}

/// The first parameter of every request: the shared secret, as "token:<secret>".
pub fn token_param(secret: &str) -> (r: String)
    ensures
        r@ == "token:"@ + secret@,
{
    let mut r = String::new();
    push_str(&mut r, "token:");
    push_str(&mut r, secret);
    r
}

/// What a torrent or metalink file is submitted as: its bytes in base64.
pub fn encode(data: &Vec<u8>) -> (r: String)
    requires
        data@.len() <= usize::MAX / 2,
    ensures
        r@ == base64_of(data@),
        r@.len() == 4 * ((data@.len() + 2) / 3),
{
    base64_standard(data.as_slice())
}

/// How a call to the daemon failed.
#[derive(Clone, Debug)]
pub enum RpcFailure {
    /// No response was obtained (no connection, no valid HTTP reply).
    Transport(String),
    /// The daemon answered with an error; its text, as given.
    Rpc(String),
}

/// Why the daemon is not available.
#[derive(Clone, Debug)]
pub enum StartupError {
    /// It never became reachable, also after it was started.
    Unreachable,
    /// It was reachable and refused the probe.
    Refused(String),
}

/// The next step of bringing the daemon up.
#[derive(Clone, Debug)]
pub enum StartupStep {
    /// The daemon answered: it is available.
    Ready,
    /// Nothing answered: start the daemon, wait, and probe again.
    Spawn,
    /// Give up.
    Fail(StartupError),
}

/// Decides the next startup step from the outcome of a probe and from whether the daemon
/// was already started by us. Only a transport failure leads to starting the daemon.
pub fn startup_step(probe: Result<(), RpcFailure>, spawned: bool) -> (r: StartupStep)
    ensures
        probe is Ok ==> r is Ready,
        probe matches Err(RpcFailure::Transport(_)) ==> if spawned {
            r matches StartupStep::Fail(StartupError::Unreachable)
        } else {
            r is Spawn
        },
        probe matches Err(RpcFailure::Rpc(m)) ==> r matches StartupStep::Fail(StartupError::Refused(t)) && t@ == m@,
{
    match probe {
        Ok(()) => StartupStep::Ready,
        Err(RpcFailure::Transport(_)) => if spawned {
            StartupStep::Fail(StartupError::Unreachable)
        } else {
            StartupStep::Spawn
        },
        Err(RpcFailure::Rpc(m)) => StartupStep::Fail(StartupError::Refused(m)),
    }
}

} // verus!
