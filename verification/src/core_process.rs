//! Which process is the core, whether it listens where it should, and when it may be stopped. A
//! core is never found by name, by image path alone or by an open port.
use vstd::prelude::*;
use crate::error::{Error, Result, invalid};
use crate::model::{Endpoint, FileIdentity, Host, ProcessIdentity, ProcessView, loopback};
use crate::text;

verus! {

/// The error number that says that a process number names no process.
pub const ERROR_INVALID_PARAMETER: u32 = 87;

/// The error number that says that a buffer is too small.
pub const ERROR_INSUFFICIENT_BUFFER: u32 = 122;

/// The largest table of listeners that is read, in bytes.
pub const TABLE_LIMIT: u32 = 16777216;

/// How often a table that keeps growing is read again.
pub const TABLE_ATTEMPTS: u32 = 4;

/// Two identities of one account in one session.
pub open spec fn same_session(a: ProcessView, b: ProcessView) -> bool {
    a.user_sid == b.user_sid && a.session_id == b.session_id
}

fn is_same_session(a: &ProcessIdentity, b: &ProcessIdentity) -> (r: bool)
    ensures
        r == same_session(a@, b@),
{
    a.session_id == b.session_id && text::same(a.user_sid.as_str(), b.user_sid.as_str())
}

/// What a process that was just created is taken for.
pub open spec fn spawned(
    caller: ProcessView,
    expected_image: FileIdentity,
    inspected: Option<ProcessIdentity>,
) -> Result<ProcessIdentity> {
    match inspected {
        Some(process) => if same_session(process@, caller) && process.image_file == expected_image {
            Ok(process)
        } else {
            invalid("CORE_PROCESS_IDENTITY_UNCONFIRMED")
        },
        None => invalid("CORE_PROCESS_IDENTITY_UNCONFIRMED"),
    }
}

/// Confirm that a process that was just created is the core: the caller's account and session, and
/// exactly the image that was to be run. `inspected` is `None` when inspection failed.
pub fn confirm_spawned(
    caller: &ProcessIdentity,
    expected_image: FileIdentity,
    inspected: Option<ProcessIdentity>,
) -> (r: Result<ProcessIdentity>)
    ensures
        r == spawned(caller@, expected_image, inspected),
{
    match inspected {
        Some(process) => {
            if is_same_session(&process, caller) && process.image_file == expected_image {
                Ok(process)
            } else {
                Err(Error::Invalid("CORE_PROCESS_IDENTITY_UNCONFIRMED"))
            }
        },
        None => Err(Error::Invalid("CORE_PROCESS_IDENTITY_UNCONFIRMED")),
    }
}

/// Refuse to touch a recorded process of another account or session.
pub fn check_caller(expected: &ProcessIdentity, caller: &ProcessIdentity) -> (r: Result<()>)
    ensures
        r == (if same_session(expected@, caller@) {
            Ok(())
        } else {
            Err(Error::IdentityMismatch)
        }),
{
    if is_same_session(expected, caller) {
        Ok(())
    } else {
        Err(Error::IdentityMismatch)
    }
}

/// What attaching to a recorded process comes to.
pub open spec fn attached(expected: ProcessIdentity, caller: ProcessView, actual: ProcessView) -> Result<
    ProcessIdentity,
> {
    if same_session(expected@, caller) && actual == expected@ {
        Ok(expected)
    } else {
        Err(Error::IdentityMismatch)
    }
}

/// Attach to a recorded process: only a process whose complete identity is the recorded one.
pub fn attach(expected: &ProcessIdentity, caller: &ProcessIdentity, actual: &ProcessIdentity) -> (r:
    Result<ProcessIdentity>)
    ensures
        r == attached(*expected, caller@, actual@),
{
    if is_same_session(expected, caller) && actual.same(expected) {
        Ok(expected.copy())
    } else {
        Err(Error::IdentityMismatch)
    }
}

/// What is seen of a recorded process: it could not be opened, it has ended, waiting for it failed,
/// or it runs with this identity.
#[derive(Debug)]
pub enum Probe {
    OpenFailed { operation: &'static str, code: u32 },
    Ended,
    WaitFailed { code: u32 },
    Running { actual: ProcessIdentity },
}

/// Whether a recorded process still runs. `Ok(false)` is given only when it is confirmed to be
/// gone: no process has its number, it has ended, or its number belongs to a process created at
/// another time. A denied access or changed details are unknown and never permit a new start.
pub open spec fn recovery(expected: ProcessView, caller: ProcessView, probe: Probe) -> Result<
    bool,
> {
    if !same_session(expected, caller) {
        Err(Error::IdentityMismatch)
    } else {
        match probe {
            Probe::OpenFailed { operation, code } => if code == ERROR_INVALID_PARAMETER {
                Ok(false)
            } else {
                Err(Error::Windows { operation, code })
            },
            Probe::Ended => Ok(false),
            Probe::WaitFailed { code } => Err(
                Error::Windows { operation: "RecoverCoreWait", code },
            ),
            Probe::Running { actual } => if actual.creation_time != expected.creation_time {
                Ok(false)
            } else if actual@ == expected {
                Ok(true)
            } else {
                Err(Error::IdentityMismatch)
            },
        }
    }
}

/// Decide whether a recorded process still runs.
pub fn recover(expected: &ProcessIdentity, caller: &ProcessIdentity, probe: &Probe) -> (r: Result<
    bool,
>)
    ensures
        r == recovery(expected@, caller@, *probe),
{
    check_caller(expected, caller)?;
    match probe {
        Probe::OpenFailed { operation, code } => if *code == ERROR_INVALID_PARAMETER {
            Ok(false)
        } else {
            Err(Error::Windows { operation: *operation, code: *code })
        },
        Probe::Ended => Ok(false),
        Probe::WaitFailed { code } => Err(
            Error::Windows { operation: "RecoverCoreWait", code: *code },
        ),
        Probe::Running { actual } => if actual.creation_time != expected.creation_time {
            Ok(false)
        } else if actual.same(expected) {
            Ok(true)
        } else {
            Err(Error::IdentityMismatch)
        },
    }
}

/// What is seen of the process that is to be stopped.
#[derive(Debug)]
pub enum StopStep {
    Done,
    Terminate,
}

/// What stopping the core has to do.
pub open spec fn stop_due(running: bool, recorded: ProcessView, actual: ProcessView) -> Result<StopStep> {
    if !running {
        Ok(StopStep::Done)
    } else if actual == recorded {
        Ok(StopStep::Terminate)
    } else {
        Err(Error::IdentityMismatch)
    }
}

/// Whether the core has to be ended: only while it runs, and only if the process that would be
/// ended is the recorded one.
pub fn stop(running: bool, recorded: &ProcessIdentity, actual: &ProcessIdentity) -> (r: Result<
    StopStep,
>)
    ensures
        r == stop_due(running, recorded@, actual@),
{
    if !running {
        return Ok(StopStep::Done);
    }
    if actual.same(recorded) {
        Ok(StopStep::Terminate)
    } else {
        Err(Error::IdentityMismatch)
    }
}

/// What ending the core came to: the call must have succeeded and the end must have been seen.
pub fn stopped(terminated: bool, code: u32, ended: bool) -> (r: Result<()>)
    ensures
        r == (if !terminated {
            Err(Error::Windows { operation: "StopCoreProcess", code })
        } else if ended {
            Ok(())
        } else {
            invalid("CORE_STOP_UNCONFIRMED")
        }),
{
    if !terminated {
        return Err(Error::Windows { operation: "StopCoreProcess", code });
    }
    if ended {
        Ok(())
    } else {
        Err(Error::Invalid("CORE_STOP_UNCONFIRMED"))
    }
}

/// A listening socket and the process that owns it.
#[derive(Clone, Copy, Debug, PartialEq, Eq, Structural)]
pub struct Listener {
    pub host: Host,
    pub port: u16,
    pub pid: u32,
}

/// The four bytes at `at`, the first one lowest.
pub open spec fn little32(bytes: Seq<u8>, at: int) -> int {
    bytes[at] + 256 * bytes[at + 1] + 65536 * bytes[at + 2] + 16777216 * bytes[at + 3]
}

/// The four bytes at `at`, the first one highest.
pub open spec fn big32(bytes: Seq<u8>, at: int) -> int {
    16777216 * bytes[at] + 65536 * bytes[at + 1] + 256 * bytes[at + 2] + bytes[at + 3]
}

/// The sixteen bytes at `at`, the first one highest.
pub open spec fn big128(bytes: Seq<u8>, at: int) -> int {
    0x1000000000000000000000000 * big32(bytes, at) + 0x10000000000000000 * big32(bytes, at + 4)
        + 0x100000000 * big32(bytes, at + 8) + big32(bytes, at + 12)
}

/// The length in bytes of a row of a table of listeners.
pub open spec fn row_size(v6: bool) -> int {
    if v6 {
        56
    } else {
        24
    }
}

/// The listener that the row at `at` describes. A row of the version 4 table holds a state, the
/// local address, the local port, the remote address and port, and the owner, four bytes each. A
/// row of the version 6 table holds sixteen bytes of local address, its scope, the local port, the
/// same three of the remote end, the state and the owner. A port is two bytes, the first one
/// highest, padded to four.
pub open spec fn row_listener(bytes: Seq<u8>, at: int, v6: bool) -> Listener {
    if v6 {
        Listener {
            host: Host::V6 { bits: big128(bytes, at) as u128 },
            port: (256 * bytes[at + 20] + bytes[at + 21]) as u16,
            pid: little32(bytes, at + 52) as u32,
        }
    } else {
        Listener {
            host: Host::V4 { bits: big32(bytes, at + 4) as u32 },
            port: (256 * bytes[at + 8] + bytes[at + 9]) as u16,
            pid: little32(bytes, at + 20) as u32,
        }
    }
}

/// The listeners of a table: a count of four bytes, then the rows. A table that is shorter than its
/// count says is refused.
pub open spec fn table_listeners(bytes: Seq<u8>, v6: bool) -> Result<Seq<Listener>> {
    if bytes.len() < 4 || little32(bytes, 0) > (bytes.len() - 4) / row_size(v6) {
        invalid("CORE_TCP_TABLE_SIZE")
    } else {
        Ok(
            Seq::new(
                little32(bytes, 0) as nat,
                |i: int| row_listener(bytes, 4 + i * row_size(v6), v6),
            ),
        )
    }
}

fn read_little32(bytes: &[u8], at: usize) -> (r: u32)
    requires
        at + 4 <= bytes@.len(),
    ensures
        r == little32(bytes@, at as int),
{
    bytes[at] as u32 + 256 * (bytes[at + 1] as u32) + 65536 * (bytes[at + 2] as u32) + 16777216 * (
    bytes[at + 3] as u32)
}

fn read_big32(bytes: &[u8], at: usize) -> (r: u32)
    requires
        at + 4 <= bytes@.len(),
    ensures
        r == big32(bytes@, at as int),
{
    16777216 * (bytes[at] as u32) + 65536 * (bytes[at + 1] as u32) + 256 * (bytes[at + 2] as u32)
        + bytes[at + 3] as u32
}

fn read_row(bytes: &[u8], at: usize, v6: bool) -> (r: Listener)
    requires
        at + row_size(v6) <= bytes@.len(),
    ensures
        r == row_listener(bytes@, at as int, v6),
{
    let total: usize = bytes.len();
    assert(at + row_size(v6) <= total);
    if v6 {
        let a: u128 = read_big32(bytes, at) as u128;
        let b: u128 = read_big32(bytes, at + 4) as u128;
        let c: u128 = read_big32(bytes, at + 8) as u128;
        let d: u128 = read_big32(bytes, at + 12) as u128;
        Listener {
            host: Host::V6 {
                bits: 0x1000000000000000000000000 * a + 0x10000000000000000 * b + 0x100000000 * c
                    + d,
            },
            port: 256 * (bytes[at + 20] as u16) + bytes[at + 21] as u16,
            pid: read_little32(bytes, at + 52),
        }
    } else {
        Listener {
            host: Host::V4 { bits: read_big32(bytes, at + 4) },
            port: 256 * (bytes[at + 8] as u16) + bytes[at + 9] as u16,
            pid: read_little32(bytes, at + 20),
        }
    }
}

/// Read a table of listeners as the operating system gives it.
pub fn listeners(bytes: &[u8], v6: bool) -> (r: Result<Vec<Listener>>)
    ensures
        match r {
            Ok(rows) => table_listeners(bytes@, v6) == Ok::<Seq<Listener>, Error>(rows@),
            Err(e) => table_listeners(bytes@, v6) == Err::<Seq<Listener>, Error>(e),
        },
{
    if bytes.len() < 4 {
        return Err(Error::Invalid("CORE_TCP_TABLE_SIZE"));
    }
    let count: usize = read_little32(bytes, 0) as usize;
    let stride: usize = if v6 {
        56
    } else {
        24
    };
    if count > (bytes.len() - 4) / stride {
        return Err(Error::Invalid("CORE_TCP_TABLE_SIZE"));
    }
    let total: usize = bytes.len();
    let ghost wanted = table_listeners(bytes@, v6)->Ok_0;
    let mut rows: Vec<Listener> = Vec::new();
    let mut i: usize = 0;
    let mut at: usize = 4;
    while i < count
        invariant
            i <= count,
            stride == row_size(v6),
            count <= (bytes@.len() - 4) / (stride as int),
            bytes@.len() >= 4,
            total == bytes@.len(),
            at == 4 + i * stride,
            wanted.len() == count,
            wanted == table_listeners(bytes@, v6)->Ok_0,
            table_listeners(bytes@, v6) is Ok,
            rows@ == wanted.take(i as int),
        decreases count - i,
    {
        proof {
            let len = bytes@.len() as int - 4;
            let s = stride as int;
            assert((i + 1) * s <= count * s) by (nonlinear_arith)
                requires
                    i + 1 <= count,
                    s > 0,
            ;
            assert(count * s <= len) by (nonlinear_arith)
                requires
                    count <= len / s,
                    s > 0,
                    len >= 0,
            ;
            assert((i + 1) * s == i * s + s) by (nonlinear_arith);
        }
        rows.push(read_row(bytes, at, v6));
        at += stride;
        i += 1;
        proof {
            assert(wanted.take(i as int) =~= wanted.take(i - 1).push(wanted[i - 1]));
        }
    }
    proof {
        assert(wanted.take(wanted.len() as int) =~= wanted);
    }
    Ok(rows)
}

/// What to do after a call that reads a table.
#[derive(Clone, Copy, Debug, PartialEq, Eq, Structural)]
pub enum TableStep {
    Read { capacity: u32 },
    Parse { length: u32 },
}

/// A table that can be read into a buffer: at least its count, at most the limit.
pub open spec fn table_fits(size: u32) -> bool {
    4 <= size <= TABLE_LIMIT
}

/// Reading a table again. `attempts` calls have been made with buffers; beyond the limit the table
/// is given up.
pub open spec fn table_reading(attempts: u32, size: u32) -> Result<TableStep> {
    if attempts >= TABLE_ATTEMPTS {
        invalid("CORE_TCP_TABLE_CHANGED")
    } else if !table_fits(size) {
        invalid("CORE_TCP_TABLE_SIZE")
    } else {
        Ok(TableStep::Read { capacity: size })
    }
}

/// The step after the call that asks for a table's size.
pub fn table_size(code: u32, size: u32) -> (r: Result<TableStep>)
    ensures
        r == (if code != ERROR_INSUFFICIENT_BUFFER && code != 0 {
            Err(Error::Windows { operation: "CoreTcpTableSize", code })
        } else {
            table_reading(0, size)
        }),
{
    if code != ERROR_INSUFFICIENT_BUFFER && code != 0 {
        return Err(Error::Windows { operation: "CoreTcpTableSize", code });
    }
    if size < 4 || size > TABLE_LIMIT {
        return Err(Error::Invalid("CORE_TCP_TABLE_SIZE"));
    }
    Ok(TableStep::Read { capacity: size })
}

/// The step after call number `attempts` with a buffer of `capacity` bytes: the table grew in the
/// meantime, the call failed, or `size` bytes can be parsed.
pub fn table_step(attempts: u32, capacity: u32, code: u32, size: u32) -> (r: Result<TableStep>)
    ensures
        table_stepped(attempts, capacity, code, size, r),
{
    if code == ERROR_INSUFFICIENT_BUFFER {
        if attempts >= TABLE_ATTEMPTS {
            return Err(Error::Invalid("CORE_TCP_TABLE_CHANGED"));
        }
        if size < 4 || size > TABLE_LIMIT {
            return Err(Error::Invalid("CORE_TCP_TABLE_SIZE"));
        }
        return Ok(TableStep::Read { capacity: size });
    }
    if code != 0 {
        return Err(Error::Windows { operation: "CoreTcpTable", code });
    }
    if size > capacity || size < 4 {
        return Err(Error::Invalid("CORE_TCP_TABLE_SIZE"));
    }
    Ok(TableStep::Parse { length: size })
}

/// A row that listens at an endpoint.
pub open spec fn listens_at(row: Listener, endpoint: Endpoint) -> bool {
    row.host == endpoint.host && row.port == endpoint.port
}

/// Some row listens at the endpoint, and every such row belongs to the process.
pub open spec fn served_by(rows: Seq<Listener>, endpoint: Endpoint, pid: u32) -> bool {
    (exists|i: int| 0 <= i < rows.len() && listens_at(#[trigger] rows[i], endpoint)) && forall|i: int|
        0 <= i < rows.len() && listens_at(#[trigger] rows[i], endpoint) ==> rows[i].pid == pid
}

/// Endpoints that a core can have: at least one, each on this machine and with a port.
pub open spec fn endpoints_valid(endpoints: Seq<Endpoint>) -> bool {
    endpoints.len() > 0 && forall|i: int|
        0 <= i < endpoints.len() ==> loopback((#[trigger] endpoints[i]).host) && endpoints[i].port
            != 0
}

fn is_served_by(rows: &[Listener], endpoint: Endpoint, pid: u32) -> (r: bool)
    ensures
        r == served_by(rows@, endpoint, pid),
{
    let mut found = false;
    let mut i: usize = 0;
    while i < rows.len()
        invariant
            i <= rows.len(),
            found == (exists|k: int| 0 <= k < i && listens_at(#[trigger] rows@[k], endpoint)),
            forall|k: int|
                0 <= k < i && listens_at(#[trigger] rows@[k], endpoint) ==> rows@[k].pid == pid,
        decreases rows.len() - i,
    {
        let row = rows[i];
        if row.host == endpoint.host && row.port == endpoint.port {
            proof {
                assert(listens_at(rows@[i as int], endpoint));
            }
            if row.pid != pid {
                return false;
            }
            found = true;
        }
        i += 1;
    }
    found
}

/// Whether a core is seen to serve its endpoints.
pub open spec fn serving(
    running: bool,
    unchanged: bool,
    endpoints: Seq<Endpoint>,
    rows: Seq<Listener>,
    pid: u32,
    still_running: bool,
) -> Result<bool> {
    if !running {
        Ok(false)
    } else if !unchanged {
        Err(Error::IdentityMismatch)
    } else if !endpoints_valid(endpoints) {
        invalid("INVALID_CORE_ENDPOINTS")
    } else {
        Ok(
            still_running && forall|i: int|
                0 <= i < endpoints.len() ==> served_by(rows, #[trigger] endpoints[i], pid),
        )
    }
}

/// Whether the core with process number `pid` serves every endpoint. `running` and `unchanged` say
/// that the process ran with its recorded identity before the rows were read, `still_running` that
/// it did afterwards.
pub fn listeners_verified(
    running: bool,
    unchanged: bool,
    endpoints: &[Endpoint],
    rows: &[Listener],
    pid: u32,
    still_running: bool,
) -> (r: Result<bool>)
    ensures
        r == serving(running, unchanged, endpoints@, rows@, pid, still_running),
{
    if !running {
        return Ok(false);
    }
    if !unchanged {
        return Err(Error::IdentityMismatch);
    }
    if endpoints.len() == 0 {
        return Err(Error::Invalid("INVALID_CORE_ENDPOINTS"));
    }
    let mut i: usize = 0;
    while i < endpoints.len()
        invariant
            i <= endpoints.len(),
            running,
            unchanged,
            forall|k: int|
                0 <= k < i ==> loopback((#[trigger] endpoints@[k]).host) && endpoints@[k].port != 0,
        decreases endpoints.len() - i,
    {
        if !endpoints[i].host.is_loopback() || endpoints[i].port == 0 {
            proof {
                assert(!endpoints_valid(endpoints@));
            }
            return Err(Error::Invalid("INVALID_CORE_ENDPOINTS"));
        }
        i += 1;
    }
    i = 0;
    while i < endpoints.len()
        invariant
            i <= endpoints.len(),
            endpoints_valid(endpoints@),
            running,
            unchanged,
            forall|k: int| 0 <= k < i ==> served_by(rows@, #[trigger] endpoints@[k], pid),
        decreases endpoints.len() - i,
    {
        if !is_served_by(rows, endpoints[i], pid) {
            proof {
                assert(!served_by(rows@, endpoints@[i as int], pid));
            }
            return Ok(false);
        }
        i += 1;
    }
    Ok(still_running)
}

/// A listener that a stranger opened beside the core's makes verification fail, however many of the
/// core's own there are.
pub proof fn strangers_spoil_verification(
    rows: Seq<Listener>,
    endpoint: Endpoint,
    pid: u32,
    stranger: int,
)
    requires
        0 <= stranger < rows.len(),
        listens_at(rows[stranger], endpoint),
        rows[stranger].pid != pid,
    ensures
        !served_by(rows, endpoint, pid),
{
}

/// What follows a try to read the table.
pub open spec fn table_stepped(
    attempts: u32,
    capacity: u32,
    code: u32,
    size: u32,
    r: Result<TableStep>,
) -> bool {
    r == (if code == ERROR_INSUFFICIENT_BUFFER {
        table_reading(attempts, size)
    } else if code != 0 {
        Err(Error::Windows { operation: "CoreTcpTable", code })
    } else if size > capacity || size < 4 {
        invalid("CORE_TCP_TABLE_SIZE")
    } else {
        Ok(TableStep::Parse { length: size })
    })
}

} // verus!
