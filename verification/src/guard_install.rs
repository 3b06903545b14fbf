//! The ticket with which an ordinary program asks the elevated installer for a listener.
use vstd::prelude::*;
use vstd::string::*;
use vstd::utf8::*;
use crate::digest::{hex, hex_digit, hex_text};
use crate::error::{Error, Result, invalid};
use crate::guard_deployment::SourceExpectation;
use crate::ids::Uuid;
use crate::model::ProcessIdentity;

verus! {

/// The longest ticket as one argument.
pub const TICKET_LIMIT: usize = 8192;

/// How long an installation is waited for, in seconds.
pub const INSTALL_TIMEOUT: u64 = 60;

/// The error number of an elevation that the user declined.
pub const ERROR_CANCELLED: u32 = 1223;

/// What the installer is asked for, by whom, and which release it has to be. `upgrade_from` names the
/// generation that may be replaced.
#[derive(Debug)]
pub struct Ticket {
    pub version: u32,
    pub request: Uuid,
    pub upgrade_from: Option<Uuid>,
    pub store: Uuid,
    pub issuer: ProcessIdentity,
    pub source: SourceExpectation,
}

/// A ticket that the installer acts on.
pub open spec fn ticket_sound(ticket: Ticket) -> bool {
    ticket.version == 1 && ticket.request.bits != 0 && ticket.store.bits != 0 && ticket.issuer.pid
        != 0 && ticket.issuer.creation_time != 0 && ticket.issuer.session_id != 0 && !(
    ticket.upgrade_from matches Some(id) && id.bits == 0)
}

/// Check a decoded ticket; `None` says that the bytes are no ticket.
pub fn check_ticket(ticket: Option<Ticket>) -> (r: Result<Ticket>)
    ensures
        r == (match ticket {
            Some(found) if ticket_sound(found) => Ok(found),
            _ => invalid::<Ticket>("INVALID_GUARD_INSTALL_TICKET"),
        }),
{
    match ticket {
        None => Err(Error::Invalid("INVALID_GUARD_INSTALL_TICKET")),
        Some(found) => {
            let named = match found.upgrade_from {
                Some(id) => !id.is_nil(),
                None => true,
            };
            if found.version != 1 || found.request.is_nil() || found.store.is_nil()
                || found.issuer.pid == 0 || found.issuer.creation_time == 0
                || found.issuer.session_id == 0 || !named {
                return Err(Error::Invalid("INVALID_GUARD_INSTALL_TICKET"));
            }
            Ok(found)
        },
    }
}

/// A ticket's bytes as one argument that needs no quoting.
pub fn encode(bytes: &[u8]) -> (r: Result<String>)
    ensures
        if bytes@.len() * 2 > TICKET_LIMIT {
            r == invalid::<String>("GUARD_INSTALL_TICKET_SIZE")
        } else {
            r matches Ok(text) && text@ == hex(bytes@)
        },
{
    if bytes.len() > TICKET_LIMIT / 2 {
        return Err(Error::Invalid("GUARD_INSTALL_TICKET_SIZE"));
    }
    Ok(hex_text(bytes))
}

/// The value of a small hexadecimal digit.
pub open spec fn small_digit(byte: u8) -> Option<int> {
    if 48 <= byte <= 57 {
        Some(byte - 48)
    } else if 97 <= byte <= 102 {
        Some(byte - 87)
    } else {
        None
    }
}

/// The bytes that an argument stands for.
pub open spec fn decoded(text: Seq<u8>) -> Result<Seq<u8>> {
    if text.len() == 0 || text.len() > TICKET_LIMIT || text.len() % 2 != 0 {
        invalid("GUARD_INSTALL_TICKET_SIZE")
    } else if exists|i: int| 0 <= i < text.len() && (#[trigger] small_digit(text[i])) is None {
        invalid("GUARD_INSTALL_ENCODING")
    } else {
        Ok(
            Seq::new(
                text.len() / 2,
                |i: int|
                    (small_digit(text[2 * i])->0 * 16 + small_digit(text[2 * i + 1])->0) as u8,
            ),
        )
    }
}

fn digit(byte: u8) -> (r: Option<u8>)
    ensures
        match r {
            Some(value) => small_digit(byte) == Some(value as int) && value < 16,
            None => small_digit(byte) is None,
        },
{
    if 48 <= byte && byte <= 57 {
        Some(byte - 48)
    } else if 97 <= byte && byte <= 102 {
        Some(byte - 87)
    } else {
        None
    }
}

/// The bytes that an argument stands for.
pub fn decode(encoded: &str) -> (r: Result<Vec<u8>>)
    ensures
        match decoded(encode_utf8(encoded@)) {
            Err(e) => r == Err::<Vec<u8>, Error>(e),
            Ok(bytes) => r matches Ok(found) && found@ == bytes,
        },
{
    let text = encoded.as_bytes();
    let n: usize = text.len();
    if n == 0 || n > TICKET_LIMIT || n % 2 != 0 {
        return Err(Error::Invalid("GUARD_INSTALL_TICKET_SIZE"));
    }
    let mut out: Vec<u8> = Vec::new();
    let mut i: usize = 0;
    while i < n
        invariant
            i <= n,
            n == text@.len(),
            n <= TICKET_LIMIT,
            n % 2 == 0,
            i % 2 == 0,
            n > 0,
            text@ == encode_utf8(encoded@),
            out@.len() == i / 2,
            forall|k: int| 0 <= k < i ==> (#[trigger] small_digit(text@[k])) is Some,
            forall|k: int|
                0 <= k < i / 2 ==> #[trigger] out@[k] == (small_digit(text@[2 * k])->0 * 16
                    + small_digit(text@[2 * k + 1])->0) as u8,
        decreases n - i,
    {
        let high: u8 = match digit(text[i]) {
            Some(value) => value,
            None => {
                proof {
                    assert(small_digit(text@[i as int]) is None);
                }
                return Err(Error::Invalid("GUARD_INSTALL_ENCODING"));
            },
        };
        let low: u8 = match digit(text[i + 1]) {
            Some(value) => value,
            None => {
                proof {
                    assert(small_digit(text@[i + 1]) is None);
                }
                return Err(Error::Invalid("GUARD_INSTALL_ENCODING"));
            },
        };
        let ghost half = i as int / 2;
        proof {
            assert(2 * half == i);
        }
        out.push(high * 16 + low);
        i += 2;
    }
    proof {
        assert(out@ =~= decoded(text@)->Ok_0);
    }
    Ok(out)
}

/// What was encoded is what is decoded.
pub proof fn tickets_round_trip(bytes: Seq<u8>)
    requires
        0 < bytes.len(),
        bytes.len() * 2 <= TICKET_LIMIT,
    ensures
        decoded(encode_utf8(hex(bytes))) == Ok::<Seq<u8>, Error>(bytes),
{
    let t = hex(bytes);
    assert(t.len() == 2 * bytes.len());
    assert forall|i: int| 0 <= i < t.len() implies #[trigger] t[i] as u32 <= 0x7f by {
        hex_char(bytes, i);
    }
    assert(is_ascii_chars(t));
    is_ascii_chars_encode_utf8(t);
    let u = encode_utf8(t);
    assert(u.len() == t.len());
    assert forall|i: int| 0 <= i < u.len() implies (#[trigger] small_digit(u[i])) is Some by {
        hex_char(bytes, i);
    }
    let d = decoded(u)->Ok_0;
    assert(d.len() == bytes.len());
    assert forall|i: int| 0 <= i < bytes.len() implies d[i] == bytes[i] by {
        hex_char(bytes, 2 * i);
        hex_char(bytes, 2 * i + 1);
        assert((2 * i) / 2 == i && (2 * i + 1) / 2 == i && (2 * i) % 2 == 0 && (2 * i + 1) % 2
            == 1);
    }
    assert(d =~= bytes);
}

proof fn hex_char(bytes: Seq<u8>, i: int)
    requires
        0 <= i < 2 * bytes.len(),
    ensures
        hex(bytes)[i] as u32 <= 0x7f,
        small_digit(hex(bytes)[i] as u8) == Some(
            if i % 2 == 0 {
                bytes[i / 2] as int / 16
            } else {
                bytes[i / 2] as int % 16
            },
        ),
{
    let v = if i % 2 == 0 {
        bytes[i / 2] as int / 16
    } else {
        bytes[i / 2] as int % 16
    };
    assert(0 <= v < 16);
    assert(hex(bytes)[i] == hex_digit(v));
}

/// What has to be done about a store's listener.
#[derive(Clone, Copy, Debug, PartialEq, Eq, Structural)]
pub enum AuthorizeStep {
    Done { generation: Uuid },
    Elevate,
}

/// What is found of a store's listener: nothing, a deployment (whether it is of the running release, its
/// generation, and what checking its task came to), or a failure.
#[derive(Debug)]
pub enum ListenerSeen {
    Missing,
    Found { release_matches: bool, generation: Uuid, task: TaskSeen },
    Failed(Error),
}

/// What is found of a listener's task.
#[derive(Debug)]
pub enum TaskSeen {
    Verified,
    Missing,
    Failed(Error),
}

/// What has to be done about a store's listener: one of the running release with its task needs nothing,
/// one of another release is a conflict, and only what is missing is installed.
pub open spec fn authorization(store: Uuid, seen: ListenerSeen) -> Result<AuthorizeStep> {
    if store.bits == 0 {
        invalid("GUARD_DEPLOYMENT_ID_REQUIRED")
    } else {
        match seen {
            ListenerSeen::Missing => Ok(AuthorizeStep::Elevate),
            ListenerSeen::Failed(error) => Err(error),
            ListenerSeen::Found { release_matches, generation, task } => if !release_matches {
                invalid("GUARD_LISTENER_RELEASE_CONFLICT")
            } else {
                match task {
                    TaskSeen::Verified => Ok(AuthorizeStep::Done { generation }),
                    TaskSeen::Missing => Ok(AuthorizeStep::Elevate),
                    TaskSeen::Failed(error) => Err(error),
                }
            },
        }
    }
}

/// Decide what has to be done about a store's listener.
pub fn authorize_listener(store: Uuid, seen: ListenerSeen) -> (r: Result<AuthorizeStep>)
    ensures
        r == authorization(store, seen),
{
    if store.is_nil() {
        return Err(Error::Invalid("GUARD_DEPLOYMENT_ID_REQUIRED"));
    }
    match seen {
        ListenerSeen::Missing => Ok(AuthorizeStep::Elevate),
        ListenerSeen::Failed(error) => Err(error),
        ListenerSeen::Found { release_matches, generation, task } => {
            if !release_matches {
                return Err(Error::Invalid("GUARD_LISTENER_RELEASE_CONFLICT"));
            }
            match task {
                TaskSeen::Verified => Ok(AuthorizeStep::Done { generation }),
                TaskSeen::Missing => Ok(AuthorizeStep::Elevate),
                TaskSeen::Failed(error) => Err(error),
            }
        },
    }
}

/// What an installation came to.
pub open spec fn install_result(exited: Option<u32>, seen: ListenerSeen) -> Result<Uuid> {
    match exited {
        None => invalid("GUARD_INSTALL_RESULT_UNKNOWN"),
        Some(_) => match seen {
            ListenerSeen::Missing => invalid("GUARD_INSTALL_NOT_CONFIRMED"),
            ListenerSeen::Failed(_) => invalid("GUARD_INSTALL_NOT_CONFIRMED"),
            ListenerSeen::Found { release_matches, generation, task } => if !release_matches {
                invalid("GUARD_LISTENER_RELEASE_CONFLICT")
            } else {
                match task {
                    TaskSeen::Verified => Ok(generation),
                    TaskSeen::Missing => invalid("GUARD_TASK_MISSING"),
                    TaskSeen::Failed(error) => Err(error),
                }
            },
        },
    }
}

/// What an installation came to. `exited` is the installer's exit code, or `None` while it still runs; what
/// counts is what is found afterwards, not the exit code.
pub fn installed(exited: Option<u32>, seen: ListenerSeen) -> (r: Result<Uuid>)
    ensures
        r == install_result(exited, seen),
{
    if exited.is_none() {
        return Err(Error::Invalid("GUARD_INSTALL_RESULT_UNKNOWN"));
    }
    match seen {
        ListenerSeen::Missing => Err(Error::Invalid("GUARD_INSTALL_NOT_CONFIRMED")),
        ListenerSeen::Failed(_) => Err(Error::Invalid("GUARD_INSTALL_NOT_CONFIRMED")),
        ListenerSeen::Found { release_matches, generation, task } => {
            if !release_matches {
                return Err(Error::Invalid("GUARD_LISTENER_RELEASE_CONFLICT"));
            }
            match task {
                TaskSeen::Verified => Ok(generation),
                TaskSeen::Missing => Err(Error::Invalid("GUARD_TASK_MISSING")),
                TaskSeen::Failed(error) => Err(error),
            }
        },
    }
}

/// What starting the installer came to: an elevation that the user declined is told apart.
pub fn launched(started: bool, code: u32, has_process: bool) -> (r: Result<()>)
    ensures
        launch_verdict(started, code, has_process, r),
{
    if !started {
        if code == ERROR_CANCELLED {
            return Err(Error::Invalid("GUARD_INSTALL_CANCELLED"));
        }
        return Err(Error::Windows { operation: "AuthorizeGuardListener", code });
    }
    if !has_process {
        return Err(Error::Invalid("GUARD_INSTALL_RESULT_UNKNOWN"));
    }
    Ok(())
}

/// The arguments of the installer.
pub fn install_arguments(encoded: &str) -> (r: String)
    ensures
        r@ == "guard-install --ticket "@ + encoded@,
{
    crate::text::join("guard-install --ticket ", encoded)
}

/// Whether the installer was started.
pub open spec fn launch_verdict(started: bool, code: u32, has_process: bool, r: Result<()>) -> bool {
    r == (if !started {
        if code == ERROR_CANCELLED {
            invalid("GUARD_INSTALL_CANCELLED")
        } else {
            Err(Error::Windows { operation: "AuthorizeGuardListener", code })
        }
    } else if has_process {
        Ok(())
    } else {
        invalid("GUARD_INSTALL_RESULT_UNKNOWN")
    })
}

} // verus!
