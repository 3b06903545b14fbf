//! What records, names and verdicts stand for, in terms of what they are made of.
use vstd::prelude::*;
use vstd::string::*;
use crate::config_transaction::{ConfigOutcome, ConfigPhase, ConfigRequest, ConfigRequestStatus, FileName, config_lookup, edit_told, file_rule, recovered, replayed, replays};
use crate::core_plan::{Draft, config_place, draft_completed, generation_prepared, generation_recorded, prepared_by, Preparation};
use crate::core_process::{TableStep, table_stepped};
use crate::core_requests::{CoreAction, action_sound, normal_form};
use crate::core_state::{Compiled, opened};
use crate::core_update::{CoreUpdate, UpdateChange, UpdatePhase};
use crate::digest::{sha256, text_digest};
use crate::error::{Error, Result, invalid};
use crate::etw::{EventBatch, ProcessStartHint, decoded_event, session_name, session_start, stop_verdict};
use crate::event_pipe::{Cursor, Policy, observed_step, policy_made};
use crate::guard_deployment::{Record, Source, Upgrade, copied_generation, upgrade_read};
use crate::guard_install::launch_verdict;
use crate::guard_listener::{Wake, woken};
use crate::guard_task::removal_verdict;
use crate::identity::{elevation, name_units};
use crate::ids::Uuid;
use crate::ifeo_entry::{Envelope, Invocation, invoked};
use crate::ifeo_journal::{MachineView, journal_of, removal_read};
use crate::ifeo_registry::{Listed, listing};
use crate::ifeo_rules::{Host, Registration, Target, registered_for};
use crate::installation::ResolvedApplication;
use crate::instance_data::{OwnerView, control_form, control_verified, folder_read};
use crate::instance_resource::{Key, Marker, ResourceRegistry, ResourceView, key_made, registry_opened, resolved};
use crate::login_journal::{Request, Status, entry_request, entry_status, login_resumes, login_status_told, login_told, login_validity};
use crate::model::{FileIdentity, Instance, Manifest, ProcessIdentity, ProcessView, ProxySource, first_profile};
use crate::path;
use crate::security::{Wait, lock_verdict};
use crate::store::{Journal, StoreView, unused_elsewhere};
use crate::text;

verus! {

/// Work for a user is done with that user's plain rights, work for the machine with elevated ones, and neither with a
/// restricted token.
pub proof fn rights_are_those_asked_for(token_elevated: bool, restricted: bool, elevated: bool)
    ensures
        elevation(token_elevated, restricted, elevated) is Ok <==> (token_elevated <==> elevated) && !restricted,
        !token_elevated && elevated ==> elevation(token_elevated, restricted, elevated) == invalid::<()>(
            "ELEVATED_USER_REQUIRED",
        ),
        token_elevated && !elevated ==> elevation(token_elevated, restricted, elevated) == invalid::<()>(
            "ORDINARY_USER_REQUIRED",
        ),
{
}

/// A name that the system gives back is what stands before its terminator.
pub proof fn names_end_before_their_terminator(name: Seq<u16>, rest: Seq<u16>)
    requires
        name.len() < u32::MAX,
    ensures
        name_units(name + seq![0u16] + rest, (name.len() + 1) as u32) == name,
{
    assert((name + seq![0u16] + rest).take(name.len() as int) =~= name);
}

/// A list is read up to its end or its last entry, whichever comes first; every name in it is a text, and there are at
/// most as many as the limit allows.
pub proof fn lists_are_read_whole(
    list: Seq<Listed>,
    i: int,
    k: int,
    operation: &'static str,
    too_many: &'static str,
    not_text: &'static str,
)
    requires
        0 <= i <= list.len(),
    ensures
        listing(list, i, operation, too_many, not_text) matches Ok(end) ==> {
            &&& i <= end <= list.len()
            &&& i <= 512 ==> end <= 512
            &&& end < list.len() ==> list[end].status == 259
            &&& i <= k < end ==> list[k].status == 0 && text::is_utf16(list[k].name@)
        },
    decreases list.len() - i,
{
    if i < list.len() && list[i].status == 0 && i < 512 && text::is_utf16(list[i].name@) {
        lists_are_read_whole(list, i + 1, k, operation, too_many, not_text);
    }
}

/// A file of a journal is a record if it is named by an identifier, and a temporary file if it says so.
pub proof fn journal_files_are_named_by_identifiers(id: Uuid)
    requires
        !".tmp"@.is_prefix_of(id.text() + ".json"@),
    ensures
        file_rule(id.text() + ".json"@) matches FileName::Record(found) && found.text() == id.text(),
{
    let name = id.text() + ".json"@;
    assert(name == id.text() + ".json"@);
    let found = choose|other: Uuid| name == #[trigger] other.text() + ".json"@;
    assert(name == found.text() + ".json"@);
    assert(found.text().len() == id.text().len());
    assert(found.text() =~= name.take(found.text().len() as int));
    assert(id.text() =~= name.take(id.text().len() as int));
}

/// Every file that is not temporary and not named by an identifier is unknown.
pub proof fn other_files_are_unknown(name: Seq<char>)
    ensures
        ".tmp"@.is_prefix_of(name) <==> file_rule(name) is Temporary,
        file_rule(name) matches FileName::Record(id) ==> name == id.text() + ".json"@,
        file_rule(name) is Unknown ==> forall|id: Uuid| name != #[trigger] id.text() + ".json"@,
{
}

/// The name of a trace session tells the user, the store and the session.
pub proof fn trace_sessions_are_named_by_their_own(user_sid: Seq<char>, session_id: u32, store_id: Uuid)
    ensures
        session_name(user_sid, session_id, store_id) == "AppProxy-Process-"@ + text_digest(user_sid).take(16) + "-"@
            + store_id.text() + "-"@ + text::number(session_id as nat),
{
}

/// A trace session is started once, for a store and an epoch.
pub proof fn trace_sessions_are_started_once(store_id: Uuid, epoch: Uuid, status: u32, r: Result<()>)
    requires
        session_start(store_id, epoch, status, r),
    ensures
        r is Ok <==> store_id.bits != 0 && epoch.bits != 0 && status == 0,
        store_id.bits != 0 && epoch.bits != 0 && status == 183 ==> r == invalid::<()>("ETW_SESSION_CONFLICT"),
{
}

/// A listener has stopped when its consumer has ended well and both its handles were closed.
pub proof fn listeners_stop_whole(finished: bool, panicked: bool, session: Result<()>, close: Result<()>, r: Result<()>)
    requires
        stop_verdict(finished, panicked, session, close, r),
    ensures
        r is Ok <==> finished && !panicked && session is Ok && close is Ok,
{
}

/// An event names the process by its number and the time of its making, as they stand in the event.
pub proof fn events_name_their_process(
    pid: Seq<u8>,
    created: Seq<u8>,
    event_time: i64,
    image: Seq<u8>,
    r: Result<ProcessStartHint>,
)
    requires
        decoded_event(pid, created, event_time, image, r),
    ensures
        r matches Ok(hint) ==> {
            &&& pid.len() == 4 && created.len() == 8
            &&& hint.pid == pid[0] + 256 * pid[1] + 65536 * pid[2] + 16777216 * pid[3] && hint.pid != 0
            &&& hint.creation_time == created[0] + 256 * created[1] + 65536 * created[2] + 16777216 * created[3]
                + 0x1_0000_0000 * (created[4] + 256 * created[5] + 65536 * created[6] + 16777216 * created[7])
                && hint.creation_time != 0
            &&& hint.event_time == event_time && event_time > 0
            &&& 0 < hint.image_name@.len() <= 260
        },
        pid.len() != 4 || created.len() != 8 ==> r is Err,
{
    if pid.len() == 4 && created.len() == 8 {
        assert(0 <= pid[0] + 256 * pid[1] + 65536 * pid[2] + 16777216 * pid[3] <= u32::MAX);
        assert(0 <= created[0] + 256 * created[1] + 65536 * created[2] + 16777216 * created[3] <= u32::MAX);
        assert(0 <= created[4] + 256 * created[5] + 65536 * created[6] + 16777216 * created[7] <= u32::MAX);
    }
}

/// A process that listens lets in its own user and session, from the given files, with the other elevation.
pub proof fn policies_let_in_their_own(
    images: Vec<FileIdentity>,
    current: ProcessIdentity,
    logon_sid: String,
    elevated_self: bool,
    r: Result<Policy>,
)
    requires
        policy_made(images, current, logon_sid, elevated_self, r),
    ensures
        r is Ok <==> images@.len() > 0,
        r matches Ok(policy) ==> policy.owner_sid@ == current.user_sid@ && policy.session_id == current.session_id
            && policy.logon_sid == logon_sid && policy.allowed_images == images && (policy.elevated_peer <==> !elevated_self),
{
}

/// A batch that is refused leaves the cursor and the batch alone; one that is taken moves the cursor to it.
pub proof fn batches_move_the_cursor(stream: Cursor, next: Cursor, batch: EventBatch, told: EventBatch, r: Result<()>)
    requires
        observed_step(stream, next, batch, told, r),
    ensures
        r is Err ==> next == stream && told == batch,
        r is Ok ==> {
            &&& next.previous matches Some(previous) && previous.epoch == batch.epoch && previous.sequence == batch.sequence
            &&& next.ended <==> batch.ended is Some
            &&& told == (EventBatch { full_scan_required: told.full_scan_required, ..batch })
            &&& batch.full_scan_required || batch.ended is Some || stream.previous is None ==> told.full_scan_required
            &&& (stream.previous matches Some(previous) && previous.sequence + 1 != batch.sequence) ==> told.full_scan_required
        },
{
}

/// The table is tried a few times at most, and read as far as it says it goes.
pub proof fn tables_are_tried_a_few_times(attempts: u32, capacity: u32, code: u32, size: u32, r: Result<TableStep>)
    requires
        table_stepped(attempts, capacity, code, size, r),
    ensures
        r matches Ok(TableStep::Read { capacity: wanted }) ==> code == 122 && attempts < 4 && wanted == size && 4 <= size
            <= 16777216,
        r matches Ok(TableStep::Parse { length }) ==> code == 0 && length == size && 4 <= size <= capacity,
        code == 0 && 4 <= size <= capacity ==> r is Ok,
        code != 0 && code != 122 ==> r == Err::<TableStep, Error>(Error::Windows { operation: "CoreTcpTable", code }),
{
}

/// The lock is held if it is the protected one and waiting for it came to an end in time.
pub proof fn locks_are_held_or_not(actual: Seq<char>, expected: Seq<char>, wait: Wait, r: Result<()>)
    requires
        lock_verdict(actual, expected, wait, r),
    ensures
        r is Ok <==> actual == expected && (wait is Acquired || wait is Abandoned),
        actual == expected && wait is Timeout ==> r == invalid::<()>("IFEO_INSTALL_BUSY"),
{
}

/// A task is removed when it is not found any more.
pub proof fn removed_tasks_are_gone(still_found: bool, login: bool, r: Result<()>)
    requires
        removal_verdict(still_found, login, r),
    ensures
        r is Ok <==> !still_found,
        still_found ==> r == invalid::<()>(
            if login {
                "GUARD_LOGIN_REMOVE_UNCONFIRMED"
            } else {
                "GUARD_TASK_REMOVE_UNCONFIRMED"
            },
        ),
{
}

/// An installer counts as started when it was, and there is a process to wait for.
pub proof fn installers_are_started(started: bool, code: u32, has_process: bool, r: Result<()>)
    requires
        launch_verdict(started, code, has_process, r),
    ensures
        r is Ok <==> started && has_process,
        !started ==> r == (if code == 1223 {
            invalid("GUARD_INSTALL_CANCELLED")
        } else {
            Err::<(), Error>(Error::Windows { operation: "AuthorizeGuardListener", code })
        }),
{
}

/// A listener sleeps only when nothing is there for it.
pub proof fn listeners_wake_for_something(backlog: bool, timer: bool, ready: bool, r: Option<Wake>)
    requires
        woken(backlog, timer, ready, r),
    ensures
        r is None <==> !backlog && !timer && !ready,
        timer ==> r == Some(Wake::Timer),
        r == Some(Wake::Ready) ==> ready,
        r == Some(Wake::Backlog) ==> backlog,
        ready && !timer ==> r == Some(Wake::Ready),
{
}

/// The record of a copy tells what was copied, whole and unchanged, and for whom.
pub proof fn copies_are_recorded_as_made(
    source: Source,
    copied: u64,
    hash: Seq<char>,
    host_image: FileIdentity,
    sid: Seq<char>,
    store: Uuid,
    generation: Uuid,
    r: Result<Record>,
)
    requires
        copied_generation(source, copied, hash, host_image, sid, store, generation, r),
    ensures
        r is Ok <==> copied == source.size && hash == source.hash@,
        r matches Ok(record) ==> record.store_id == store && record.generation == generation && record.owner_sid@ == sid
            && record.host_image == host_image && record.coordinator_path@ == source.path@ && record.coordinator_image
            == source.image && record.image_size == source.size && record.image_sha256@ == source.hash@ && record.protocol
            == 1,
{
}

/// Where no upgrade is recorded there is none; one that cannot be read is an error.
pub proof fn upgrades_are_read_or_absent(found: Result<(u64, Option<Upgrade>)>, r: Result<Option<Upgrade>>)
    requires
        upgrade_read(found, r),
    ensures
        r == Ok::<Option<Upgrade>, Error>(None) <==> (found matches Err(e) && ((e matches Error::Windows { code, .. } && (code
            == 2 || code == 3)) || (e matches Error::Io { code } && (code == 2 || code == 3)))),
        r matches Ok(Some(plan)) ==> (found matches Ok((length, read)) && length <= 32768 && read == Some(plan)),
        found matches Ok((length, read)) ==> (r is Ok <==> length <= 32768 && read is Some),
{
}

/// An entry passes on what it was called with: the program first, then its arguments, and only where both the entry and
/// the program are named from the root.
pub proof fn entries_pass_on_what_they_got(parts: Envelope, words: Option<Vec<Vec<u16>>>, r: Result<Invocation>)
    requires
        invoked(parts, words, r),
    ensures
        r matches Ok(made) ==> words is Some && words->0@.len() == made.arguments@.len() + 1 && made.target == words->0@[0]
            && (forall|i: int| 0 <= i < made.arguments@.len() ==> #[trigger] made.arguments@[i] == words->0@[i + 1])
            && made.host == parts.host && made.registration == parts.registration && made.raw_target == parts.raw_target,
        words is None || words->0@.len() == 0 ==> r == invalid::<Invocation>("IFEO_INVALID_TARGET_COMMAND"),
{
}

/// The control directories of a package are the store's own, of the user and of the package.
pub proof fn control_directories_are_the_stores_own(
    container: OwnerView,
    base: OwnerView,
    store_id: Uuid,
    sid: Seq<char>,
    family: Seq<char>,
    r: Result<()>,
)
    requires
        control_verified(container, base, store_id, sid, family, r),
    ensures
        r is Ok ==> container.owner_sid == sid && base.owner_sid == sid && container.package_family == Some(family)
            && base.package_family == Some(family) && container.store_id is None && base.store_id == Some(store_id)
            && container.instance_id is None && base.instance_id is None && container.schema_version == 1
            && base.schema_version == 1,
        r is Err ==> r == invalid::<()>("PACKAGE_CONTROL_OWNER_MISMATCH"),
        r is Err ==> !(container == (OwnerView {
            format: "app-proxy-rust-data"@,
            schema_version: 1,
            owner_sid: sid,
            store_id: None,
            instance_id: None,
            package_family: Some(family),
        }) && base == (OwnerView { store_id: Some(store_id), ..container })),
{
}

/// A control directory lies in the local state of its package, under the store's identifier.
pub proof fn control_directories_lie_in_their_package(base: Seq<char>, store_id: Uuid, family: Seq<char>)
    requires
        control_form(base, store_id, family),
    ensures
        path::last_component(base) == Some(store_id.text()),
        path::parent_path(base) matches Some(container) && path::last_component(container) == Some("AppProxy"@) && (
        path::parent_path(container) matches Some(local) && path::last_component(local) == Some("LocalState"@) && (
        path::parent_path(local) matches Some(package) && path::last_component(package) == Some(family))),
{
}

/// The folder for local data is the one that was told, if it is a text and begins at a root.
pub proof fn folders_are_absolute(status: i32, units: Seq<u16>, r: Result<String>)
    requires
        folder_read(status, units, r),
    ensures
        r matches Ok(folder) ==> status >= 0 && text::utf16(folder@) == units && path::absolute(folder@),
        status < 0 ==> r == Err::<String, Error>(Error::Windows { operation: "GetLocalAppData", code: status as u32 }),
{
}

/// The key of a claim tells the user, the session, the installation and the data apart.
pub proof fn keys_tell_everything_apart(
    application: ResolvedApplication,
    caller: ProcessView,
    data: Option<FileIdentity>,
    other: ResolvedApplication,
    stranger: ProcessView,
    elsewhere: Option<FileIdentity>,
    a: Key,
    b: Key,
)
    requires
        key_made(application, caller, data, a),
        key_made(other, stranger, elsewhere, b),
    ensures
        a.user_sid@ == caller.user_sid && a.session_id == caller.session_id && a.version == 1,
        a.user_sid@ == b.user_sid@ ==> caller.user_sid == stranger.user_sid,
        a.session_id == b.session_id ==> caller.session_id == stranger.session_id,
        a.data == b.data ==> data == elsewhere,
        application.package is None && a.installation == b.installation ==> other.package is None && application.image
            == other.image,
        application.package is Some <==> a.installation is Msix,
{
}

/// A resource tells whose it is and which file it is, and for a program without a package that file is its installation.
pub proof fn resources_tell_whose_they_are(
    application: ResolvedApplication,
    caller: ProcessView,
    encoded: Seq<u8>,
    r: ResourceView,
)
    requires
        resolved(application, caller, encoded, r),
    ensures
        r.key == sha256(encoded) && r.user_sid == caller.user_sid && r.session_id == caller.session_id,
        r.executable == application.executable@ && r.image == application.image,
        application.package is None ==> r.installation_image == Some(application.image),
        application.package is Some ==> r.installation_image is None,
{
}

/// A registry of claims lies below a directory that is named from the root and never goes up, and it is its user's.
pub proof fn registries_lie_below_a_root(root: String, sid: String, marker: Marker, r: Result<ResourceRegistry>)
    requires
        registry_opened(root, sid, marker, r),
    ensures
        r matches Ok(registry) ==> path::absolute(root@) && !path::goes_up(root@) && registry.root == root && registry.sid
            == sid,
        !path::absolute(root@) || path::goes_up(root@) ==> r == invalid::<ResourceRegistry>(
            "ABSOLUTE_RESOURCE_ROOT_REQUIRED",
        ),
{
}

/// A registration is made of the configuration's store and user, the instance, the program and the host.
pub proof fn registrations_tell_what_they_are_for(
    manifest: Manifest,
    instance: Instance,
    id: Uuid,
    target: Target,
    host: Host,
    r: Result<Registration>,
)
    requires
        registered_for(manifest, instance, id, target, host, r),
    ensures
        r matches Ok(made) ==> {
            &&& made@.id == id && made@.store_id == manifest.store_id && made@.owner_sid == manifest.owner_sid@
            &&& made@.instance_id == instance.id && made@.application_id == instance.application_id
            &&& made@.target == target.path@ && made@.target_key == target.key@ && made@.target_image == target.image
            &&& made@.host == host.path@ && made@.host_key == host.key@ && made@.host_image == host.image
            &&& made@.deployment_generation == host.generation
        },
{
}

/// A registration is removed as it was recorded.
pub proof fn removals_read_what_was_recorded(machine: MachineView, id: Uuid, r: Result<Registration>)
    requires
        removal_read(machine, id, r),
    ensures
        id.bits == 0 ==> r == invalid::<Registration>("IFEO_INVALID_ID"),
        r matches Ok(record) ==> id.bits != 0 && (journal_of(machine, id) matches Ok(journal) && record@ == journal.record),
        id.bits != 0 && journal_of(machine, id) is Ok ==> r is Ok,
{
}

/// A request to start, or to serve more, names the profile that needs it among its profiles; putting it in order keeps
/// which profiles those are.
pub proof fn ordered_requests_ask_for_the_same(given: CoreAction, normal: CoreAction)
    requires
        normal_form(given, normal),
    ensures
        match (given, normal) {
            (CoreAction::Start { profiles: a, required: x }, CoreAction::Start { profiles: b, required: y }) => x == y
                && forall|p: Uuid| #[trigger] a@.contains(p) <==> b@.contains(p),
            (
                CoreAction::PrepareExpand { profiles: a, required: x, expected_revision: m },
                CoreAction::PrepareExpand { profiles: b, required: y, expected_revision: n },
            ) => x == y && m == n && forall|p: Uuid| #[trigger] a@.contains(p) <==> b@.contains(p),
            _ => given == normal,
        },
        action_sound(given) <==> match given {
            CoreAction::Start { profiles, required } => exists|i: int|
                0 <= i < profiles@.len() && #[trigger] profiles@[i] == required,
            CoreAction::PrepareExpand { profiles, required, .. } => exists|i: int|
                0 <= i < profiles@.len() && #[trigger] profiles@[i] == required,
            _ => true,
        },
{
    match (given, normal) {
        (CoreAction::Start { profiles: a, required: x }, CoreAction::Start { profiles: b, required: y }) => {
            assert forall|p: Uuid| #[trigger] a@.contains(p) <==> b@.contains(p) by {
                assert(a@.to_set().contains(p) <==> b@.to_set().contains(p));
            }
        },
        (
            CoreAction::PrepareExpand { profiles: a, required: x, expected_revision: m },
            CoreAction::PrepareExpand { profiles: b, required: y, expected_revision: n },
        ) => {
            assert forall|p: Uuid| #[trigger] a@.contains(p) <==> b@.contains(p) by {
                assert(a@.to_set().contains(p) <==> b@.to_set().contains(p));
            }
        },
        _ => {},
    }
}

/// A recorded generation carries the configuration it was recorded with, its digest, and the profiles it was made for;
/// the earlier ones stay.
pub proof fn generations_are_recorded_beside_each_other(
    before: StoreView,
    after: StoreView,
    source: Manifest,
    generation: Uuid,
    ids: Seq<Uuid>,
    config: Vec<u8>,
    place: String,
    r: Result<()>,
    i: int,
)
    requires
        generation_recorded(before, after, source, generation, ids, config, place, r),
        0 <= i < before.generations.len(),
    ensures
        after == (StoreView { generations: after.generations, ..before }),
        after.generations.len() == before.generations.len() + 1 && after.generations[i] == before.generations[i],
        ({
            let made = after.generations.last();
            &&& made.header.generation == generation && made.directory == generation && made.path == place
            &&& made.config == config && made.header.digest@ == sha256(config@)
            &&& made.header.store_id == before.manifest.store_id && made.header.profiles@.len() == ids.len()
            &&& made.header.schema_version == 1
        }),
        r is Ok ==> opened(after, generation) is Ok,
{
    assert(after.generations.drop_last()[i] == after.generations[i]);
}

/// A generation of the configuration as it stands has an identifier of its own and lies below the store.
pub proof fn new_generations_lie_below_the_store(
    before: StoreView,
    after: StoreView,
    ids: Seq<Uuid>,
    config: Vec<u8>,
    root: Seq<char>,
    r: Result<Uuid>,
)
    requires
        generation_prepared(before, after, ids, config, root, r),
    ensures
        ({
            let made = after.generations.last();
            &&& made.path@ == config_place(root, made.header.generation) && made.directory == made.header.generation
            &&& made.config == config && made.header.digest@ == sha256(config@)
            &&& made.header.store_id == before.manifest.store_id && made.header.schema_version == 1
            &&& r matches Ok(id) ==> id == made.header.generation
        }),
        after == (StoreView { generations: after.generations, ..before }),
{
}

/// A draft becomes a plan that is prepared and not executed; where profiles are left to serve its candidate is the new
/// generation, otherwise the old one.
pub proof fn plans_are_made_of_drafts(
    draft: Draft,
    candidate: Uuid,
    before_config: Compiled,
    after_config: Compiled,
    replay: Option<Vec<u8>>,
    r: CoreUpdate,
)
    requires
        draft_completed(draft, candidate, before_config, after_config, replay, r),
    ensures
        r.plan_id == draft.plan_id && r.profile_id == draft.profile_id && r.change == draft.change,
        r.before == draft.before && r.after == draft.after && r.previous == draft.previous,
        r.store_id == draft.before.store_id && r.before_config == before_config && r.after_config == after_config,
        r.phase == UpdatePhase::Prepared && r.execution_request is None && r.result is None && r.replay == replay,
        draft.profiles@.len() > 0 ==> r.candidate == candidate,
        draft.profiles@.len() == 0 ==> r.candidate == draft.generation,
{
}

/// What a plan was prepared by tells the revision that it was planned for and the profile it is about.
pub proof fn plans_tell_what_asked_for_them(plan: CoreUpdate, preparation: Result<Preparation>)
    requires
        prepared_by(plan, preparation),
    ensures
        match preparation {
            Ok(Preparation::Remove { expected_revision, profile_id }) => plan.change is RemoveProfile && expected_revision
                == plan.before.revision && profile_id == plan.profile_id,
            Ok(Preparation::Expand { expected_revision, profiles, required }) => expected_revision == plan.before.revision
                && required == plan.profile_id && (plan.change matches UpdateChange::Expand { profiles: wanted }
                && profiles@ == wanted@),
            Ok(Preparation::Update { expected_revision, profile_id, node }) => plan.change is EditProfile
                && expected_revision == plan.before.revision && profile_id == plan.profile_id && (
            first_profile(plan.after.profiles@, plan.profile_id) matches Some(at) && (
            plan.after.profiles@[at].source matches ProxySource::Manual { nodes } && nodes@.len() > 0 && node@
                == nodes@[0]@)),
            Ok(Preparation::Subscription { expected_revision, profile_id, .. }) => expected_revision == plan.before.revision
                && profile_id == plan.profile_id,
            Err(_) => !(plan.change is RemoveProfile) && !(plan.change is Expand),
        },
{
}

/// Of an edit that is recorded its outcome is told, or that it is pending; of another nothing.
pub proof fn edits_are_told_as_recorded(store: StoreView, id: Uuid, r: Result<Option<ConfigRequestStatus>>)
    requires
        edit_told(store, id, r),
    ensures
        id.bits == 0 ==> r == invalid::<Option<ConfigRequestStatus>>("INVALID_REQUEST_ID"),
        id.bits != 0 ==> match config_lookup(store, id) {
            Err(e) => r == Err::<Option<ConfigRequestStatus>, Error>(e),
            Ok(None) => r == Ok::<Option<ConfigRequestStatus>, Error>(None),
            Ok(Some(at)) => r matches Ok(Some(told)) && match store.config_requests[at].phase {
                ConfigPhase::Pending { .. } => told is Pending,
                ConfigPhase::Complete { outcome, .. } => told == (ConfigRequestStatus::Complete { outcome }),
            },
        },
{
}

/// Asking again for an edit recovers what was interrupted and records nothing.
pub proof fn asking_again_records_nothing(
    before: StoreView,
    after: StoreView,
    request: ConfigRequest,
    at: u64,
    r: Result<Option<ConfigOutcome>>,
)
    requires
        replays(before, after, request, at, r),
    ensures
        after == before || after == recovered(before, at).0,
        request.request_id.bits == 0 || unused_elsewhere(before, request.request_id, Journal::Config) is Err ==> r is Err
            && after == before,
        r matches Ok(told) ==> after == recovered(before, at).0 && recovered(before, at).1 is Ok && replayed(after, request)
            == Ok::<Option<ConfigOutcome>, Error>(told),
{
}

/// The login entry is the one that has not been removed, and what is told of it is its latest request.
pub proof fn login_entries_are_told_by_their_latest_request(
    store: StoreView,
    r: Result<Option<(Request, Status, crate::login::Registration)>>,
)
    requires
        login_told(store, r),
    ensures
        r is Ok <==> login_validity(store) is Ok,
        r == Ok::<Option<(Request, Status, crate::login::Registration)>, Error>(None) ==> forall|i: int|
            0 <= i < store.login.entries.len() ==> (#[trigger] store.login.entries[i]).removed_revision is Some,
        r matches Ok(Some(told)) ==> exists|i: int|
            0 <= i < store.login.entries.len() && (#[trigger] store.login.entries[i]).removed_revision is None && told.0 == (
            match store.login.entries[i].removal {
                Some(removal) => removal,
                None => store.login.entries[i].create,
            }) && told.2 == store.login.entries[i].registration && told.1 == entry_status(store.login.entries[i], told.0.id),
{
    let active = crate::login_journal::is_active();
    crate::seqs::first_where_found(store.login.entries, active);
    match crate::seqs::first_where(store.login.entries, active) {
        Some(at) => {
            assert(active(store.login.entries[at]));
        },
        None => {
            assert forall|i: int| 0 <= i < store.login.entries.len() implies (
            #[trigger] store.login.entries[i]).removed_revision is Some by {
                assert(!active(store.login.entries[i]));
            }
        },
    }
}

/// A request for the login entry that has been answered is told its answer and changes nothing; one that is pending is
/// taken up where no one else works on it.
pub proof fn answered_login_requests_change_nothing(
    before: StoreView,
    after: StoreView,
    id: Uuid,
    lease: Result<()>,
    at: u64,
    r: Result<crate::login_journal::Preparation>,
)
    requires
        login_resumes(before, after, id, lease, at, r),
    ensures
        after == before || (lease is Ok && after == recovered(before, at).0),
        id.bits == 0 ==> r == invalid::<crate::login_journal::Preparation>("INVALID_REQUEST_ID"),
        id.bits != 0 && login_validity(before) is Ok && (forall|i: int|
            0 <= i < before.login.entries.len() ==> entry_request(#[trigger] before.login.entries[i], id) is None) ==> r
            == invalid::<crate::login_journal::Preparation>("GUARD_LOGIN_REQUEST_NOT_FOUND") && after == before,
        r matches Ok(crate::login_journal::Preparation::Pending(job)) ==> lease is Ok && job.request.id == id,
{
    let held = crate::login_journal::holds_request(id);
    crate::seqs::first_where_found(before.login.entries, held);
    crate::seqs::first_where_found(after.login.entries, held);
    match crate::seqs::first_where(before.login.entries, held) {
        Some(at) => {
            assert(held(before.login.entries[at]));
        },
        None => {},
    }
    match crate::seqs::first_where(after.login.entries, held) {
        Some(at) => {
            assert(held(after.login.entries[at]));
        },
        None => {},
    }
}

/// Of a request for the login entry that is recorded it is told how far it has come, of another nothing.
pub proof fn login_requests_are_told_as_recorded(store: StoreView, id: Uuid, r: Result<Option<Status>>)
    requires
        login_status_told(store, id, r),
    ensures
        id.bits == 0 ==> r == invalid::<Option<Status>>("INVALID_REQUEST_ID"),
        r == Ok::<Option<Status>, Error>(None) ==> forall|i: int|
            0 <= i < store.login.entries.len() ==> entry_request(#[trigger] store.login.entries[i], id) is None,
        r matches Ok(Some(status)) ==> exists|i: int|
            0 <= i < store.login.entries.len() && entry_request(#[trigger] store.login.entries[i], id) is Some && status
                == entry_status(store.login.entries[i], id),
        id.bits != 0 ==> (r is Ok <==> login_validity(store) is Ok),
{
    let held = crate::login_journal::holds_request(id);
    crate::seqs::first_where_found(store.login.entries, held);
    match crate::seqs::first_where(store.login.entries, held) {
        Some(at) => {
            assert(held(store.login.entries[at]));
        },
        None => {
            assert forall|i: int| 0 <= i < store.login.entries.len() implies entry_request(
                #[trigger] store.login.entries[i],
                id,
            ) is None by {
                assert(!held(store.login.entries[i]));
            }
        },
    }
}

} // verus!
