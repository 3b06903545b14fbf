//! What is taken for the core's process, and what requests for the core are answered, in terms of what is seen and
//! recorded.
use vstd::prelude::*;
use vstd::string::*;
use crate::core_process::{Listener, Probe, StopStep, attached, recovery, serving, spawned, stop_due, table_listeners};
use crate::core_requests::{CoreRequest, OutcomeView, PhaseView, RequestView, begin_outcome, core_lookup, expired, outcome_valid, pending_request, request_validity, unresolved};
use crate::core_plan::{executes, settled_phase, settlement};
use crate::core_start::{Job, start_evidence, recovery_settled};
use crate::core_state::{Compiled, StateView, allowed, compiled_matches, opened, recorded_state, state_generation, transition_outcome};
use crate::digest::sha256;
use crate::error::{Error, invalid};
use crate::ids::Uuid;
use crate::model::{Endpoint, FileIdentity, Host, ProcessIdentity, ProcessView};
use crate::store::StoreView;
use crate::text;
use crate::update_laws::{local_listener, real_process};

verus! {

/// A process that was just created passes for the core only if it is the caller's own, in the caller's session, and
/// of the very file that was to be run.
pub proof fn spawned_cores_are_the_callers(
    caller: ProcessView,
    image: FileIdentity,
    process: ProcessIdentity,
)
    ensures
        spawned(caller, image, Some(process)) == if process.user_sid@ == caller.user_sid && process.session_id
            == caller.session_id && process.image_file.volume_serial == image.volume_serial
            && process.image_file.file_index == image.file_index {
            Ok::<ProcessIdentity, Error>(process)
        } else {
            invalid("CORE_PROCESS_IDENTITY_UNCONFIRMED")
        },
        spawned(caller, image, None) == invalid::<ProcessIdentity>("CORE_PROCESS_IDENTITY_UNCONFIRMED"),
{
}

/// Two processes that agree in everything that is recorded of one.
pub open spec fn wholly_same(a: ProcessView, b: ProcessView) -> bool {
    a.pid == b.pid && a.creation_time == b.creation_time && a.user_sid == b.user_sid && a.session_id == b.session_id
        && a.image_path == b.image_path && a.image_file == b.image_file
}

/// A recorded process is attached to, ended, or taken to run only if the process that is found agrees with the record
/// in everything; nothing is done to one of another user or session. It is taken to be gone only if no process has its
/// number, it has ended, or its number was given to a process of another time.
pub proof fn only_the_recorded_process_is_touched(
    expected: ProcessIdentity,
    caller: ProcessView,
    actual: ProcessIdentity,
    code: u32,
    operation: &'static str,
)
    ensures
        ({
            let own = expected.user_sid@ == caller.user_sid && expected.session_id == caller.session_id;
            let same = wholly_same(actual@, expected@);
            &&& attached(expected, caller, actual@) is Ok <==> own && same
            &&& attached(expected, caller, actual@) matches Ok(found) ==> found == expected
            &&& stop_due(true, expected@, actual@) is Ok <==> same
            &&& same ==> stop_due(true, expected@, actual@) == Ok::<StopStep, Error>(StopStep::Terminate)
            &&& stop_due(false, expected@, actual@) == Ok::<StopStep, Error>(StopStep::Done)
            &&& recovery(expected@, caller, Probe::Running { actual }) == if !own {
                Err::<bool, Error>(Error::IdentityMismatch)
            } else if actual.creation_time != expected.creation_time {
                Ok(false)
            } else if same {
                Ok(true)
            } else {
                Err(Error::IdentityMismatch)
            }
            &&& own ==> recovery(expected@, caller, Probe::Ended) == Ok::<bool, Error>(false)
            &&& recovery(expected@, caller, Probe::WaitFailed { code }) is Err
            &&& own ==> recovery(expected@, caller, Probe::OpenFailed { operation, code }) == if code == 87 {
                Ok::<bool, Error>(false)
            } else {
                Err(Error::Windows { operation, code })
            }
            &&& !own ==> recovery(expected@, caller, Probe::Ended) is Err
        }),
{
}

/// A core is told to serve only while it runs unchanged, before and after the look, and if at every endpoint someone
/// listens and nobody but the core. Endpoints beyond this machine are refused.
pub proof fn cores_serve_alone(
    endpoints: Seq<Endpoint>,
    rows: Seq<Listener>,
    pid: u32,
    running: bool,
    unchanged: bool,
    still_running: bool,
)
    ensures
        serving(running, unchanged, endpoints, rows, pid, still_running) == Ok::<bool, Error>(true) ==> running
            && unchanged && still_running && endpoints.len() > 0 && forall|i: int|
            0 <= i < endpoints.len() ==> local_listener((#[trigger] endpoints[i]).host, endpoints[i].port) && (exists|
                k: int,
            |
                0 <= k < rows.len() && (#[trigger] rows[k]).host == endpoints[i].host && rows[k].port
                    == endpoints[i].port) && forall|k: int|
                0 <= k < rows.len() && (#[trigger] rows[k]).host == endpoints[i].host && rows[k].port
                    == endpoints[i].port ==> rows[k].pid == pid,
        running && unchanged && (endpoints.len() == 0 || exists|i: int|
            0 <= i < endpoints.len() && !local_listener((#[trigger] endpoints[i]).host, endpoints[i].port)) ==> serving(
            running,
            unchanged,
            endpoints,
            rows,
            pid,
            still_running,
        ) == invalid::<bool>("INVALID_CORE_ENDPOINTS"),
        running && !unchanged ==> serving(running, unchanged, endpoints, rows, pid, still_running) == Err::<bool, Error>(
            Error::IdentityMismatch,
        ),
        !running ==> serving(running, unchanged, endpoints, rows, pid, still_running) == Ok::<bool, Error>(false),
{
    if serving(running, unchanged, endpoints, rows, pid, still_running) == Ok::<bool, Error>(true) {
        assert forall|i: int| 0 <= i < endpoints.len() implies local_listener(
            (#[trigger] endpoints[i]).host,
            endpoints[i].port,
        ) && (exists|k: int|
            0 <= k < rows.len() && (#[trigger] rows[k]).host == endpoints[i].host && rows[k].port == endpoints[i].port)
            && forall|k: int|
            0 <= k < rows.len() && (#[trigger] rows[k]).host == endpoints[i].host && rows[k].port == endpoints[i].port
                ==> rows[k].pid == pid by {
            assert(crate::core_process::served_by(rows, endpoints[i], pid));
            let k = choose|k: int|
                0 <= k < rows.len() && crate::core_process::listens_at(#[trigger] rows[k], endpoints[i]);
            assert(rows[k].host == endpoints[i].host && rows[k].port == endpoints[i].port);
            assert forall|m: int|
                0 <= m < rows.len() && (#[trigger] rows[m]).host == endpoints[i].host && rows[m].port
                    == endpoints[i].port implies rows[m].pid == pid by {
                assert(crate::core_process::listens_at(rows[m], endpoints[i]));
            }
        }
    }
    if exists|i: int|
        0 <= i < endpoints.len() && !local_listener((#[trigger] endpoints[i]).host, endpoints[i].port) {
        let i = choose|i: int|
            0 <= i < endpoints.len() && !local_listener((#[trigger] endpoints[i]).host, endpoints[i].port);
        assert(!(crate::model::loopback(endpoints[i].host) && endpoints[i].port != 0));
    }
}

/// The start of a core is taken to have made this process only if the generation opens, the start was recorded for it
/// by this user in this session, whoever recorded it is gone or is the caller, and the job of the start holds this one
/// process, which is of the recorded user, session and file and not older than its creator.
pub proof fn starts_are_recovered_by_their_witness(
    store: StoreView,
    generation: Uuid,
    current: ProcessView,
    creator_running: bool,
    job: Job,
)
    ensures
        start_evidence(store, generation, current, creator_running, job) matches Ok(found) ==> {
            &&& opened(store, generation) is Ok
            &&& store.start matches Some(witness) && {
                &&& witness.version == 1 && witness.store_id == store.manifest.store_id && witness.generation == generation
                &&& witness.nonce.bits != 0 && witness.creator.pid != 0 && witness.creator.creation_time != 0
                &&& witness.creator.user_sid@ == current.user_sid && witness.creator.session_id == current.session_id
                &&& creator_running ==> wholly_same(witness.creator@, current)
                &&& found matches Some(process) ==> {
                    &&& process.user_sid@ == witness.creator.user_sid@ && process.session_id == witness.creator.session_id
                    &&& process.image_file == witness.image && process.creation_time >= witness.creator.creation_time
                    &&& job matches Job::Found { active, total, assigned, listed, first, in_job, process: member }
                        && active == 1 && total == 1 && assigned == 1 && listed == 1 && in_job && member == process
                        && first <= 0xffff_ffff
                }
                &&& found is None ==> (job is Missing || (job matches Job::Found { active, listed, .. } && (active == 0
                    || listed == 0)))
            }
        },
        opened(store, generation) is Ok && store.start is None ==> start_evidence(
            store,
            generation,
            current,
            creator_running,
            job,
        ) == invalid::<Option<ProcessIdentity>>("CORE_START_WITNESS_MISSING"),
{
}

/// A request's record may be used only if it is of this store and lies under its own identifier, was accepted at a real
/// time, and is pending for a real run or complete, not before it was accepted, with an outcome that may be recorded.
pub proof fn usable_requests_are_whole(record: RequestView, store_id: Uuid, owner: Seq<char>)
    ensures
        request_validity(record, store_id, owner) is Ok <==> record.schema_version == 1 && record.store_id == store_id
            && record.request_id == record.file && record.file.bits != 0 && record.accepted_at > 0
            && match record.phase {
            PhaseView::Pending { epoch } => epoch.bits != 0,
            PhaseView::Complete { outcome, completed_at } => completed_at >= record.accepted_at && outcome_valid(
                outcome,
                owner,
            ),
        },
        forall|outcome: OutcomeView|
            #[trigger] outcome_valid(outcome, owner) ==> match outcome {
                OutcomeView::CancelRequested { request_id } => request_id.bits != 0,
                OutcomeView::Installed { valid, .. } => valid,
                OutcomeView::Ready { generation, process } => generation.bits != 0 && real_process(process, owner),
                OutcomeView::Failed { code } => text::code_text(code),
                OutcomeView::Indeterminate { code } => text::code_text(code),
                _ => true,
            },
{
}

/// A request is settled once it is complete, unless what it did to the core is not known; its receipt goes seven days
/// after that, and no sooner.
pub proof fn receipts_are_kept_seven_days(phase: PhaseView, at: u64)
    ensures
        unresolved(phase) <==> match phase {
            PhaseView::Pending { .. } => true,
            PhaseView::Complete { outcome, .. } => outcome is Indeterminate,
        },
        expired(phase, at) <==> (phase matches PhaseView::Complete { outcome, completed_at } && !(outcome
            is Indeterminate) && at > completed_at + 604800),
{
}

/// A request that was recorded is not taken on again: the same one is told how far it has come, another one under its
/// identifier is a conflict.
pub proof fn requests_are_taken_on_once(
    store: StoreView,
    id: Uuid,
    encoded: Seq<u8>,
    place: int,
    epoch: Uuid,
    at: u64,
)
    requires
        core_lookup(store, id) == Ok::<Option<int>, Error>(Some(place)),
        crate::store::unused_elsewhere(store, id, crate::store::Journal::Core) is Ok,
    ensures
        begin_outcome(store, id, encoded) == if store.core_requests[place].digest@ == sha256(encoded) {
            Ok::<Option<PhaseView>, Error>(Some(store.core_requests[place].phase@))
        } else {
            invalid("REQUEST_ID_CONFLICT")
        },
        store.core_requests[place].file == id,
        ({
            let made = pending_request(id, epoch, encoded, store.manifest.store_id, at);
            &&& made.file == id && made.request_id == id && made.store_id == store.manifest.store_id
            &&& made.schema_version == 1 && made.digest == sha256(encoded) && made.accepted_at == at
            &&& made.phase == (PhaseView::Pending { epoch })
        }),
{
    crate::seqs::first_where_found(store.core_requests, crate::core_requests::request_file(id));
}

/// A receipt is settled only for the action that its request asked for, and only while it is not settled; it is told
/// to be complete at the time of settling, and not before the request was accepted.
pub proof fn receipts_are_settled_once(
    store: StoreView,
    request: Uuid,
    encoded: Seq<u8>,
    outcome: OutcomeView,
    needed: bool,
    place: int,
    at: u64,
)
    requires
        core_lookup(store, request) == Ok::<Option<int>, Error>(Some(place)),
    ensures
        ({
            let record = store.core_requests[place];
            let told = settlement(store, request, encoded, outcome, needed);
            &&& record.digest@ != sha256(encoded) ==> told == invalid::<Option<int>>("CORE_UPDATE_REQUEST_MISMATCH")
            &&& told == Ok::<Option<int>, Error>(Some(place)) <==> record.digest@ == sha256(encoded) && (
            record.phase@ is Pending || (record.phase@ matches PhaseView::Complete { outcome: o, .. } && o
                is Indeterminate)) && outcome_valid(outcome, store.manifest.owner_sid@)
            &&& record.digest@ == sha256(encoded) && (record.phase@ matches PhaseView::Complete { outcome: o, .. }
                && !(o is Indeterminate)) ==> told == Ok::<Option<int>, Error>(None)
            &&& settled_phase(record, outcome, at) matches PhaseView::Complete { outcome: o, completed_at } && o
                == outcome && completed_at >= at && completed_at >= record.accepted_at && (completed_at == at
                || completed_at == record.accepted_at)
            &&& executes(store, request, encoded) is Ok <==> record.digest@ == sha256(encoded) && record.phase@ is Pending
        }),
{
}

/// Recovering a start settles the unsettled requests for exactly that recovery, but the excluded one, and touches no
/// other.
pub proof fn recoveries_settle_their_own_requests(
    record: CoreRequest,
    encoded: Seq<u8>,
    outcome: OutcomeView,
    exclude: Uuid,
    at: u64,
)
    ensures
        ({
            let told = recovery_settled(record, encoded, outcome, exclude, at);
            let own = record.request_id != exclude && record.digest@ == sha256(encoded) && (record.phase@ is Pending || (
            record.phase@ matches PhaseView::Complete { outcome: o, .. } && o is Indeterminate));
            &&& !own ==> told == record@
            &&& own ==> told == (RequestView { phase: told.phase, ..record@ }) && (told.phase matches PhaseView::Complete {
                outcome: o,
                ..
            } && o == outcome)
        }),
{
}

/// A table of listeners lists, behind its count, that many rows of a fixed length. A row of the older kind tells its
/// address in the second four bytes, its port in the two behind, and its owner in the last four; one of the newer kind
/// its address in the first sixteen, its port behind the scope, and its owner in the last four. Addresses and ports are
/// written with the highest byte first, owners with the lowest.
pub proof fn tables_list_addresses_ports_and_owners(bytes: Seq<u8>, i: int)
    ensures
        table_listeners(bytes, false) matches Ok(rows) ==> bytes.len() >= 4 + 24 * rows.len() && rows.len() == bytes[0]
            + 256 * bytes[1] + 65536 * bytes[2] + 16777216 * bytes[3] && (0 <= i < rows.len() ==> {
            let at = 4 + 24 * i;
            &&& rows[i].host == (Host::V4 {
                bits: (16777216 * bytes[at + 4] + 65536 * bytes[at + 5] + 256 * bytes[at + 6] + bytes[at + 7]) as u32,
            })
            &&& rows[i].port == 256 * bytes[at + 8] + bytes[at + 9]
            &&& rows[i].pid == bytes[at + 20] + 256 * bytes[at + 21] + 65536 * bytes[at + 22] + 16777216 * bytes[at
                + 23]
        }),
        table_listeners(bytes, true) matches Ok(rows) ==> bytes.len() >= 4 + 56 * rows.len() && rows.len() == bytes[0]
            + 256 * bytes[1] + 65536 * bytes[2] + 16777216 * bytes[3] && (0 <= i < rows.len() ==> {
            let at = 4 + 56 * i;
            &&& rows[i].host is V6
            &&& rows[i].port == 256 * bytes[at + 20] + bytes[at + 21]
            &&& rows[i].pid == bytes[at + 52] + 256 * bytes[at + 53] + 65536 * bytes[at + 54] + 16777216 * bytes[at
                + 55]
        }),
{
}

/// The core goes from stopped or down to starting, from starting to running or down within one generation, from running
/// to down within one generation, and to stopped from everywhere else; no other way.
pub proof fn cores_go_through_their_states(from: StateView, to: StateView)
    ensures
        allowed(from, to) <==> {
            ||| to is Starting && (from is Stopped || from is Down)
            ||| to is Running && from is Starting && state_generation(from) == state_generation(to)
            ||| to is Down && (from is Starting || from is Running) && state_generation(from) == state_generation(to)
            ||| to is Stopped && !(from is Stopped)
        },
        state_generation(from) == (match from {
            StateView::Stopped => None,
            StateView::Starting { generation } => Some(generation),
            StateView::Running { generation, .. } => Some(generation),
            StateView::Down { generation } => Some(generation),
        }),
{
}

/// The recorded state moves only from what it is expected to be, only along the ways that there are, and only to a
/// generation that opens; a core is started only with the configuration as it stands.
pub proof fn core_states_are_moved_from_what_they_are(
    store: StoreView,
    expected: StateView,
    next: StateView,
    compiled: Compiled,
    update: bool,
)
    ensures
        transition_outcome(store, expected, next, compiled, update) is Ok ==> {
            &&& recorded_state(store) == Ok::<StateView, Error>(expected)
            &&& allowed(expected, next) || (update && expected is Down && next is Down)
            &&& state_generation(next) matches Some(id) ==> (opened(store, id) matches Ok(generation) && (next is Starting
                ==> compiled_matches(compiled, generation) == Ok::<bool, Error>(true)))
        },
        recorded_state(store) is Ok && recorded_state(store)->Ok_0 != expected ==> transition_outcome(
            store,
            expected,
            next,
            compiled,
            update,
        ) == invalid::<()>("CORE_STATE_CHANGED"),
{
}

} // verus!
