//! Session bootstrap decisions: joining a room, checking its password,
//! refusing a self-connect, and naming each fatal error for the user.
//!
//! Bootstrap failures are fatal to the run and surfaced as one
//! descriptive message; nothing here retries. The directory service that
//! answers joins lives outside this crate — its answers arrive as plain
//! values.

use vstd::prelude::*;
use crate::config::JOIN_TIMEOUT_MS;

verus! {

/// Outcome of holding the password a user supplied against the one the
/// room announces.
#[derive(Clone, Copy, Debug, PartialEq, Eq, Structural)]
pub enum PasswordCheck {
    /// The passwords agree, or the room asks for none.
    Accepted,
    /// The room's password differs from the supplied one.
    Wrong,
    /// A password was supplied, but the room's never arrived to compare.
    Unverifiable,
    /// The room has a non-empty password and none was supplied.
    Missing,
}

/// What [`check_password`] returns for each combination of supplied and
/// announced password.
pub open spec fn spec_check_password(
    provided: Option<Seq<char>>,
    lobby: Option<Seq<char>>,
) -> PasswordCheck {
    match (provided, lobby) {
        (Some(p), Some(l)) => if p == l {
            PasswordCheck::Accepted
        } else {
            PasswordCheck::Wrong
        },
        (Some(_), None) => PasswordCheck::Unverifiable,
        (None, Some(l)) => if l.len() > 0 {
            PasswordCheck::Missing
        } else {
            PasswordCheck::Accepted
        },
        (None, None) => PasswordCheck::Accepted,
    }
}

/// Hold the supplied password against the room's announced one.
pub fn check_password(provided: &Option<String>, lobby: &Option<String>) -> (r: PasswordCheck)
    ensures
        r == spec_check_password(provided.deep_view(), lobby.deep_view()),
{
    match (provided, lobby) {
        (Some(p), Some(l)) => {
            proof {
                assert(provided.deep_view() == Some(p@));
                assert(lobby.deep_view() == Some(l@));
            }
            if p.eq(l) {
                PasswordCheck::Accepted
            } else {
                PasswordCheck::Wrong
            }
        },
        (Some(_), None) => PasswordCheck::Unverifiable,
        (None, Some(l)) => {
            proof {
                assert(lobby.deep_view() == Some(l@));
            }
            if l.as_str().unicode_len() > 0 {
                PasswordCheck::Missing
            } else {
                PasswordCheck::Accepted
            }
        },
        (None, None) => PasswordCheck::Accepted,
    }
}

/// A fatal bootstrap error; each run surfaces at most one.
#[derive(Clone, Copy, Debug, PartialEq, Eq, Structural)]
pub enum BootstrapError {
    /// The directory refused the join (room gone, full, or unreachable).
    JoinRejected,
    /// No join answer arrived within the deadline.
    JoinTimeout,
    /// The room's password differs from the supplied one.
    PasswordWrong,
    /// The room's password never arrived to check against.
    PasswordUnverifiable,
    /// The room asks for a password and none was supplied.
    PasswordMissing,
    /// The room's owner is this same account.
    SelfConnect,
    /// The transport refused to dial the host.
    DialFailed,
    /// The dialed connection never reached `Connected` in time.
    ConnectTimeout,
    /// The host closed the connection while it was being established.
    ConnectRejected,
    /// A problem was detected locally while connecting.
    ConnectProblem,
    /// The local listener or listen socket could not be opened.
    LocalBindFailed,
}

/// What [`validate_join`] returns: the password must check out, and the
/// room's owner must be another account.
pub open spec fn spec_validate_join(
    own_identity: u64,
    host_identity: u64,
    provided: Option<Seq<char>>,
    lobby: Option<Seq<char>>,
) -> Result<(), BootstrapError> {
    match spec_check_password(provided, lobby) {
        PasswordCheck::Wrong => Err(BootstrapError::PasswordWrong),
        PasswordCheck::Unverifiable => Err(BootstrapError::PasswordUnverifiable),
        PasswordCheck::Missing => Err(BootstrapError::PasswordMissing),
        PasswordCheck::Accepted => if host_identity == own_identity {
            Err(BootstrapError::SelfConnect)
        } else {
            Ok(())
        },
    }
}

/// Decide whether a join may proceed to dialing the host.
pub fn validate_join(
    own_identity: u64,
    host_identity: u64,
    provided: &Option<String>,
    lobby: &Option<String>,
) -> (r: Result<(), BootstrapError>)
    ensures
        r == spec_validate_join(
            own_identity,
            host_identity,
            provided.deep_view(),
            lobby.deep_view(),
        ),
{
    match check_password(provided, lobby) {
        PasswordCheck::Wrong => Err(BootstrapError::PasswordWrong),
        PasswordCheck::Unverifiable => Err(BootstrapError::PasswordUnverifiable),
        PasswordCheck::Missing => Err(BootstrapError::PasswordMissing),
        PasswordCheck::Accepted => {
            if host_identity == own_identity {
                Err(BootstrapError::SelfConnect)
            } else {
                Ok(())
            }
        },
    }
}

/// A room id of zero marks an empty or unset field, never a real room.
pub fn is_valid_lobby_id(raw: u64) -> (r: bool)
    ensures
        r == (raw != 0),
{
    raw != 0
}

/// Whether the room-join answer is overdue at clock reading `now_ms` for
/// a join started at `started_ms`.
pub fn join_wait_expired(now_ms: u64, started_ms: u64) -> (r: bool)
    ensures
        r == (now_ms >= started_ms.saturating_add(JOIN_TIMEOUT_MS)),
{
    now_ms >= started_ms.saturating_add(JOIN_TIMEOUT_MS)
}

/// The user-facing message for each bootstrap error.
pub open spec fn spec_describe_bootstrap_error(e: BootstrapError) -> Seq<char> {
    match e {
        BootstrapError::JoinRejected => "could not join the room - check that the room id is right, that its owner is still running, and that the service is reachable"@,
        BootstrapError::JoinTimeout => "joining the room timed out - the service may be briefly unavailable, try again shortly"@,
        BootstrapError::PasswordWrong => "wrong room password"@,
        BootstrapError::PasswordUnverifiable => "could not verify the password in time, or the owner set none"@,
        BootstrapError::PasswordMissing => "the room asks for a password and none was given"@,
        BootstrapError::SelfConnect => "cannot connect to yourself - use two different accounts"@,
        BootstrapError::DialFailed => "could not dial the room's owner - the transport failed to start the connection"@,
        BootstrapError::ConnectTimeout => "connecting to the owner timed out - the peer may be offline, verify it is online and the identifier is correct"@,
        BootstrapError::ConnectRejected => "the owner closed the connection - check that their program is running and the room id is right"@,
        BootstrapError::ConnectProblem => "a connection problem was detected locally - check the network and that the transport service is running"@,
        BootstrapError::LocalBindFailed => "could not open the local listener - the port may be in use"@,
    }
}

/// Describe a bootstrap error for the user.
pub fn describe_bootstrap_error(e: BootstrapError) -> (r: &'static str)
    ensures
        r@ == spec_describe_bootstrap_error(e),
{
    match e {
        BootstrapError::JoinRejected => "could not join the room - check that the room id is right, that its owner is still running, and that the service is reachable",
        BootstrapError::JoinTimeout => "joining the room timed out - the service may be briefly unavailable, try again shortly",
        BootstrapError::PasswordWrong => "wrong room password",
        BootstrapError::PasswordUnverifiable => "could not verify the password in time, or the owner set none",
        BootstrapError::PasswordMissing => "the room asks for a password and none was given",
        BootstrapError::SelfConnect => "cannot connect to yourself - use two different accounts",
        BootstrapError::DialFailed => "could not dial the room's owner - the transport failed to start the connection",
        BootstrapError::ConnectTimeout => "connecting to the owner timed out - the peer may be offline, verify it is online and the identifier is correct",
        BootstrapError::ConnectRejected => "the owner closed the connection - check that their program is running and the room id is right",
        BootstrapError::ConnectProblem => "a connection problem was detected locally - check the network and that the transport service is running",
        BootstrapError::LocalBindFailed => "could not open the local listener - the port may be in use",
    }
}

} // verus!
