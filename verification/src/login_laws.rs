//! When login entries are made, completed and removed, in terms of what the journal and the configuration record.
use vstd::prelude::*;
use vstd::string::*;
use crate::core_update::idle;
use crate::error::{Error, Result, invalid};
use crate::guard_task::{Spec, literal};
use crate::ids::Uuid;
use crate::login::{RegistrationView, StoreDescriptor, authorization, login_name, login_ready, login_scope, login_spec, quoted, task_metadata};
use crate::login_journal::{Action, Entry, Job, LoginPlan, Preparation, Request, Status, admitted, begin_outcome, begun, completable, completed_entry, cutoff, entry_request, entry_status, entry_verdict, follows, holds_request, is_active, login_validity, preparation, recorded, repeated, request_sound, retained};
use crate::model::{LoginTask, Manifest};
use crate::path;
use crate::seqs::first_where;
use crate::store::{Journal, StoreView, unused_elsewhere};
use crate::text;

verus! {

/// A login task is made only for the user that its registration names, for a real store, and for absolute paths
/// without a step upwards that the scheduler takes literally; the program that it starts is a host.
pub proof fn login_tasks_are_for_their_user(registration: RegistrationView, sid: Seq<char>)
    ensures
        login_scope(registration, sid) is Ok ==> registration.owner_sid == sid && sid.len() > 0
            && registration.store_id.bits != 0 && path::absolute(registration.home) && path::absolute(registration.host)
            && literal(registration.home) && literal(registration.host) && !path::goes_up(registration.home)
            && !path::goes_up(registration.host) && path::last_component(registration.host) == Some(
            "app-proxy-host.exe"@,
        ),
        registration.owner_sid != sid ==> login_scope(registration, sid) == invalid::<()>("GUARD_LOGIN_OWNER_MISMATCH"),
{
}

/// A login task starts the registered host for the registered store at its place, for the user and with the user's own
/// rights.
pub proof fn login_tasks_start_the_registered_host(spec: Spec, registration: RegistrationView, sid: Seq<char>)
    requires
        login_spec(spec, registration, sid),
    ensures
        spec.login && spec.sid@ == sid && spec.path@ == registration.host,
        spec.args@ == "serve --home "@ + quoted(registration.home) + " --expected-store "@ + registration.store_id.text(),
        spec.name@ == "AppProxy-Login-"@ + crate::digest::text_digest(sid).take(16) + "-"@ + registration.store_id.text(),
        spec.uri@ == "\\"@ + spec.name@,
        Some(spec.cwd@) == path::parent_path(registration.host),
{
}

/// What the configuration records of a login task is the task's own name, program and arguments.
pub proof fn login_tasks_are_recorded_as_made(task: LoginTask, registration: RegistrationView, sid: Seq<char>)
    ensures
        task_metadata(task, registration, sid) <==> task.name@ == login_name(sid, registration.store_id) && task.target@
            == registration.host && task.args@.len() == 5 && task.args@[0]@ == "serve"@ && task.args@[1]@ == "--home"@
            && task.args@[2]@ == registration.home && task.args@[3]@ == "--expected-store"@ && task.args@[4]@
            == registration.store_id.text(),
{
}

/// A login entry is ready only for the store and the user that it was made for, at its place, with its task registered,
/// its host deployed and its listener in order.
pub proof fn login_entries_are_ready_for_their_store(
    registration: RegistrationView,
    found: StoreDescriptor,
    same_place: bool,
    task: Result<bool>,
    deployed: Seq<char>,
    listener: Result<()>,
)
    ensures
        login_ready(registration, found, same_place, task, deployed, listener) == Ok::<bool, Error>(true) <==> same_place
            && found.store_id == registration.store_id && found.owner_sid@ == registration.owner_sid && task == Ok::<
            bool,
            Error,
        >(true) && deployed == registration.host && listener is Ok,
        login_ready(registration, found, same_place, task, deployed, listener) == Ok::<bool, Error>(false) ==> task
            == Ok::<bool, Error>(false),
{
}

/// A login entry is prepared only for the store that the guard was deployed for, with its listener in order and of the
/// running release; it names what was found.
pub proof fn login_entries_are_prepared_for_a_deployment(
    found: StoreDescriptor,
    deployment_store: Uuid,
    listener: Result<()>,
    release_matches: bool,
    home: Seq<char>,
    host: Seq<char>,
    sid: Seq<char>,
)
    ensures
        authorization(found, deployment_store, listener, release_matches, home, host, sid) matches Ok(made) ==> {
            &&& found.store_id == deployment_store && listener is Ok && release_matches
            &&& made.store_id == found.store_id && made.owner_sid == found.owner_sid@ && made.home == home && made.host
                == host && made.owner_sid == sid
        },
{
}

/// A request that may be recorded has an identifier and expects a revision; a creation undoes nothing, a removal names
/// the creation that it undoes.
pub proof fn sound_requests_name_what_they_undo(request: Request)
    ensures
        request_sound(request) <==> request.id.bits != 0 && request.expected_revision > 0 && if request.action
            == Action::Create {
            request.expected_creation is None
        } else {
            request.expected_creation matches Some(id) && id.bits != 0
        },
{
}

/// How far a request has come: a creation is created at a revision, cancelled if the entry was removed before, and
/// pending otherwise; a removal is removed at a revision or pending.
pub proof fn entries_tell_how_far_they_have_come(entry: Entry, id: Uuid)
    ensures
        id == entry.create.id ==> entry_request(entry, id) == Some(entry.create) && entry_status(entry, id) == (
        match (entry.created_revision, entry.removed_revision) {
            (Some(revision), _) => Status::Created { revision },
            (None, Some(_)) => Status::Cancelled,
            (None, None) => Status::Pending { action: Action::Create },
        }),
        id != entry.create.id && (entry.removal matches Some(removal) && removal.id == id) ==> entry_request(entry, id)
            == entry.removal && entry_status(entry, id) == (match entry.removed_revision {
            Some(revision) => Status::Removed { revision },
            None => Status::Pending { action: Action::Remove },
        }),
        id != entry.create.id && !(entry.removal matches Some(removal) && removal.id == id) ==> entry_request(entry, id)
            is None,
{
}

/// An instance of the configuration is guarded.
pub open spec fn something_guarded(manifest: Manifest) -> bool {
    exists|i: int| 0 <= i < manifest.instances@.len() && (#[trigger] manifest.instances@[i]).guarded
}

/// A login entry is created only if there is none, neither in the journal nor in the configuration, if something is
/// guarded, and by an authorized plan for this store at this place. It is recorded behind the entries that are
/// retained, as not yet created.
pub proof fn login_entries_are_created_once(
    store: StoreView,
    request: Request,
    plan: Option<LoginPlan>,
    at: u64,
)
    requires
        request.action == Action::Create,
    ensures
        recorded(store, request, plan, at) matches Ok(entries) ==> {
            &&& forall|i: int|
                0 <= i < store.login.entries.len() ==> (#[trigger] store.login.entries[i]).removed_revision is Some
            &&& store.manifest.login_task is None && something_guarded(store.manifest)
            &&& plan matches Some(made) && made.registration.store_id == store.manifest.store_id
                && made.registration.owner_sid@ == store.user_sid && made.home is Ok && made.root is Ok
                && made.home->Ok_0@ == made.root->Ok_0@ && {
                let last = entries.last();
                &&& entries.len() > 0 && entries.len() <= 256 && last.create == request && last.registration
                    == made.registration
                &&& last.created_revision is None && last.removal is None && last.removed_revision is None
                    && last.removed_at is None
            }
        },
        store.manifest.login_task is Some ==> recorded(store, request, plan, at) == invalid::<Seq<Entry>>(
            "GUARD_LOGIN_ALREADY_REGISTERED",
        ),
        store.manifest.login_task is None && (forall|i: int|
            0 <= i < store.login.entries.len() ==> (#[trigger] store.login.entries[i]).removed_revision is Some)
            && !something_guarded(store.manifest) ==> recorded(store, request, plan, at) == invalid::<Seq<Entry>>(
            "GUARD_LOGIN_NOT_NEEDED",
        ),
{
    crate::seqs::first_where_found(store.login.entries, is_active());
    if store.manifest.login_task is None && (forall|i: int|
        0 <= i < store.login.entries.len() ==> (#[trigger] store.login.entries[i]).removed_revision is Some) {
        assert forall|i: int| 0 <= i < store.login.entries.len() implies !is_active()(
            #[trigger] store.login.entries[i],
        ) by {}
        crate::seqs::first_where_none(store.login.entries, is_active());
    }
    match recorded(store, request, plan, at) {
        Ok(entries) => {
            assert forall|i: int| 0 <= i < store.login.entries.len() implies (
            #[trigger] store.login.entries[i]).removed_revision is Some by {
                assert(!is_active()(store.login.entries[i]));
            }
            let i = choose|i: int|
                0 <= i < store.manifest.instances@.len() && (#[trigger] store.manifest.instances@[i]).guarded;
            assert(store.manifest.instances@[i].guarded);
        },
        Err(_) => {},
    }
}

/// A removal is recorded only for the entry that is not removed, if it names that entry's creation, and only once; it
/// changes nothing but that the removal is recorded.
pub proof fn login_entries_are_removed_by_name(
    store: StoreView,
    request: Request,
    plan: Option<LoginPlan>,
    at: u64,
    place: int,
)
    requires
        request.action == Action::Remove,
        0 <= place < store.login.entries.len(),
        store.login.entries[place].removed_revision is None,
        forall|i: int| 0 <= i < place ==> (#[trigger] store.login.entries[i]).removed_revision is Some,
    ensures
        ({
            let entry = store.login.entries[place];
            let told = recorded(store, request, plan, at);
            &&& told is Ok <==> request.expected_creation == Some(entry.create.id) && entry.removal is None
            &&& told matches Ok(entries) ==> entries.len() == store.login.entries.len() && entries[place].removal == Some(
                request,
            ) && entries[place].create == entry.create && entries[place].registration == entry.registration
                && entries[place].created_revision == entry.created_revision && entries[place].removed_revision is None
                && forall|i: int|
                0 <= i < entries.len() && i != place ==> #[trigger] entries[i] == store.login.entries[i]
            &&& request.expected_creation != Some(entry.create.id) ==> told == invalid::<Seq<Entry>>(
                "GUARD_LOGIN_REGISTRATION_CHANGED",
            )
        }),
{
    assert forall|i: int| 0 <= i < place implies !is_active()(#[trigger] store.login.entries[i]) by {}
    crate::seqs::first_where_is(store.login.entries, is_active(), place);
}

/// A new request is taken on only if its identifier is free everywhere else, no update is under way, and the
/// configuration is at the revision that the client saw.
pub proof fn login_requests_expect_the_revision(store: StoreView, request: Request)
    ensures
        admitted(store, request) is Ok <==> unused_elsewhere(store, request.id, Journal::Login) is Ok && idle(store) is Ok
            && store.manifest.revision == request.expected_revision,
{
}

/// A repeated request is answered as before: another one under its identifier is a conflict, a decided one is told
/// what it came to.
pub proof fn login_requests_are_answered_once(store: StoreView, request: Request, place: int)
    requires
        login_validity(store) is Ok,
        first_where(store.login.entries, holds_request(request.id)) == Some(place),
    ensures
        ({
            let entry = store.login.entries[place];
            let same = entry_request(entry, request.id) == Some(request);
            &&& !same ==> repeated(store, request) == invalid::<Option<Status>>("REQUEST_ID_CONFLICT")
            &&& same && !(entry_status(entry, request.id) is Pending) ==> repeated(store, request) == Ok::<
                Option<Status>,
                Error,
            >(Some(entry_status(entry, request.id)))
        }),
{
}

/// The work of a pending request is its own: the request, the registration that it was recorded with, and whether a
/// missing task may be created, which is so only while something is guarded. A creation whose removal is recorded has no
/// work left.
pub proof fn login_work_is_the_recorded_one(store: StoreView, id: Uuid, place: int)
    requires
        first_where(store.login.entries, holds_request(id)) == Some(place),
    ensures
        preparation(store, id) matches Ok(Preparation::Pending(job)) ==> {
            let entry = store.login.entries[place];
            &&& job.registration == entry.registration && (job.request == entry.create || entry.removal == Some(
                job.request,
            )) && job.request.id == id
            &&& job.create_allowed <==> something_guarded(store.manifest)
            &&& entry.removal matches Some(removal) ==> removal.id == id
            &&& entry.removed_revision is None && idle(store) is Ok
        },
{
    crate::seqs::first_where_found(store.login.entries, holds_request(id));
    match preparation(store, id) {
        Ok(Preparation::Pending(job)) => {
            if something_guarded(store.manifest) {
                let i = choose|i: int|
                    0 <= i < store.manifest.instances@.len() && (#[trigger] store.manifest.instances@[i]).guarded;
                assert(store.manifest.instances@[i].guarded);
            }
        },
        _ => {},
    }
}

/// A completion is recorded only for the request and the registration that it was made for, while it is pending, and
/// only if the configuration records no login task or exactly this one. It sets the revision of what was done, and
/// with a removal its time, and nothing else.
pub proof fn completions_are_of_their_own_request(store: StoreView, job: Job, place: int, revision: u64, at: u64)
    requires
        first_where(store.login.entries, holds_request(job.request.id)) == Some(place),
    ensures
        completable(store, job) == Ok::<Option<Status>, Error>(None) ==> {
            let entry = store.login.entries[place];
            &&& entry_request(entry, job.request.id) == Some(job.request) && entry.registration@ == job.registration@
            &&& entry.removal matches Some(removal) ==> removal.id == job.request.id
            &&& store.manifest.login_task matches Some(task) ==> task_metadata(task, entry.registration@, store.user_sid)
            &&& idle(store) is Ok && login_validity(store) is Ok
        },
        ({
            let entry = store.login.entries[place];
            let made = completed_entry(entry, Action::Create, revision, at);
            let gone = completed_entry(entry, Action::Remove, revision, at);
            &&& made == (Entry { created_revision: Some(revision), ..entry })
            &&& gone == (Entry { removed_revision: Some(revision), removed_at: Some(at), ..entry })
        }),
{
}

/// The configuration that a completion leads to is the next one, and differs from the current one in the login task:
/// it records the task that was created, or none.
pub proof fn completions_change_the_login_task_alone(
    current: Manifest,
    next: Manifest,
    create: bool,
    registration: RegistrationView,
    sid: Seq<char>,
)
    requires
        follows(current, next, create, registration, sid),
    ensures
        next.revision == current.revision + 1 && next.store_id == current.store_id && next.owner_sid@
            == current.owner_sid@,
        next.instances@ == current.instances@ && next.applications@ == current.applications@ && next.profiles@.len()
            == current.profiles@.len(),
        create ==> (next.login_task matches Some(task) && task_metadata(task, registration, sid)),
        !create ==> next.login_task is None,
{
}

/// A removed entry is forgotten seven days after its removal, and no sooner; one that is not removed is never
/// forgotten.
pub proof fn removed_entries_are_kept_seven_days(entries: Seq<Entry>, at: u64, i: int)
    requires
        0 <= i < entries.len(),
    ensures
        entries[i].removed_at is None || entries[i].removed_at->0 + 604800 >= at ==> retained(entries, cutoff(at)).contains(
            entries[i],
        ),
        forall|k: int|
            0 <= k < retained(entries, cutoff(at)).len() ==> {
                let kept = #[trigger] retained(entries, cutoff(at))[k];
                kept.removed_at is None || kept.removed_at->0 + 604800 >= at || at < 604800
            },
{
    keeps(entries, cutoff(at), i);
    assert forall|k: int| 0 <= k < retained(entries, cutoff(at)).len() implies ({
        let kept = #[trigger] retained(entries, cutoff(at))[k];
        kept.removed_at is None || kept.removed_at->0 + 604800 >= at || at < 604800
    }) by {
        drops(entries, cutoff(at), k);
    }
}

proof fn keeps(entries: Seq<Entry>, before: u64, i: int)
    requires
        0 <= i < entries.len(),
    ensures
        entries[i].removed_at is None || entries[i].removed_at->0 >= before ==> retained(entries, before).contains(
            entries[i],
        ),
    decreases entries.len(),
{
    let front = entries.drop_last();
    let rest = retained(front, before);
    if i < front.len() {
        keeps(front, before, i);
        if rest.contains(entries[i]) {
            let k = choose|k: int| 0 <= k < rest.len() && rest[k] == entries[i];
            assert(rest.push(entries.last())[k] == entries[i]);
        }
    } else {
        assert(rest.push(entries.last())[rest.len() as int] == entries[i]);
    }
}

proof fn drops(entries: Seq<Entry>, before: u64, k: int)
    requires
        0 <= k < retained(entries, before).len(),
    ensures
        retained(entries, before)[k].removed_at is None || retained(entries, before)[k].removed_at->0 >= before,
    decreases entries.len(),
{
    let rest = retained(entries.drop_last(), before);
    if k < rest.len() {
        drops(entries.drop_last(), before, k);
    }
}

/// A recorded entry was created for its store and its user, by a sound request whose identifier no earlier entry holds,
/// at a revision that has been; one that was removed was so by a request that names its creation, at a later revision.
pub proof fn recorded_entries_are_whole(entries: Seq<Entry>, i: int, store: Uuid, current: u64, sid: Seq<char>)
    requires
        entry_verdict(entries, i, store, current, sid) is Ok,
    ensures
        ({
            let entry = entries[i];
            &&& entry.create.action == Action::Create && entry.create.id.bits != 0 && entry.create.expected_creation is None
            &&& entry.registration.store_id == store && entry.registration@.owner_sid == sid
            &&& entry.create.expected_revision <= current
            &&& entry.created_revision matches Some(made) ==> entry.create.expected_revision < made <= current
            &&& entry.removed_revision is Some <==> entry.removed_at is Some
            &&& entry.removed_revision is Some ==> entry.removal is Some
            &&& entry.removal matches Some(removal) ==> {
                &&& removal.action == Action::Remove && removal.id.bits != 0 && removal.id != entry.create.id
                &&& removal.expected_creation == Some(entry.create.id) && removal.expected_revision <= current
                &&& entry.created_revision matches Some(made) ==> made <= removal.expected_revision
                &&& entry.created_revision is None ==> entry.create.expected_revision <= removal.expected_revision
                &&& entry.removed_revision matches Some(gone) ==> removal.expected_revision <= gone <= current
            }
        }),
        forall|k: int|
            0 <= k < i && k < entries.len() ==> entry_request(#[trigger] entries[k], entries[i].create.id) is None && (
            entries[i].removal matches Some(removal) ==> entry_request(entries[k], removal.id) is None),
{
    assert forall|k: int| 0 <= k < i && k < entries.len() implies entry_request(
        #[trigger] entries[k],
        entries[i].create.id,
    ) is None && (entries[i].removal matches Some(removal) ==> entry_request(entries[k], removal.id) is None) by {}
}

/// An entry that was created by a sound request, is the user's own and has not been removed is in order.
pub proof fn sound_entries_are_accepted(entries: Seq<Entry>, i: int, store: Uuid, current: u64, sid: Seq<char>)
    requires
        0 <= i < entries.len(),
        ({
            let entry = entries[i];
            &&& entry.create.action == Action::Create && entry.create.id.bits != 0 && entry.create.expected_creation is None
            &&& 0 < entry.create.expected_revision <= current
            &&& entry.registration.store_id == store && login_scope(entry.registration@, sid) is Ok
            &&& entry.created_revision matches Some(made) ==> entry.create.expected_revision < made <= current
            &&& entry.removed_revision is None && entry.removed_at is None && entry.removal is None
        }),
        forall|k: int| 0 <= k < i ==> entry_request(#[trigger] entries[k], entries[i].create.id) is None,
    ensures
        entry_verdict(entries, i, store, current, sid) is Ok,
{
}

/// A login entry is of its user, of a store, and starts the host from a path that can be used.
pub proof fn login_scopes_are_of_their_user(registration: RegistrationView, sid: Seq<char>)
    ensures
        login_scope(registration, sid) is Ok ==> registration.owner_sid == sid && registration.store_id.bits != 0 && sid.len()
            > 0 && path::last_component(registration.host) == Some("app-proxy-host.exe"@),
        registration.owner_sid != sid ==> login_scope(registration, sid) == invalid::<()>("GUARD_LOGIN_OWNER_MISMATCH"),
{
}

/// A request that does not say what it is for is refused, one that was answered is told its answer, and neither changes
/// anything.
pub proof fn login_requests_are_taken_on_once(
    store: StoreView,
    request: Request,
    plan: Option<LoginPlan>,
    lease: Result<()>,
    at: u64,
)
    ensures
        ({
            let (after, told) = begin_outcome(store, request, plan, lease, at);
            &&& request.id.bits == 0 || request.expected_revision == 0 ==> after == store && told == invalid::<Preparation>(
                "INVALID_GUARD_LOGIN_REQUEST",
            )
            &&& lease is Err ==> after == store
            &&& request_sound(request) && (repeated(store, request) matches Ok(Some(status))) ==> after == store && told == Ok::<
                Preparation,
                Error,
            >(Preparation::Complete(repeated(store, request)->Ok_0->0))
        }),
{
}

/// What is recorded for a new request leaves the journal in order, and everything but the login entries as it was.
pub proof fn new_login_requests_leave_the_journal_in_order(
    store: StoreView,
    request: Request,
    plan: Option<LoginPlan>,
    at: u64,
)
    ensures
        ({
            let (after, told) = begun(store, request, plan, at);
            &&& after == (StoreView { login: after.login, ..store })
            &&& login_validity(store) is Err ==> after == store && told is Err
            &&& login_validity(store) is Ok ==> login_validity(after) is Ok
            &&& after != store ==> admitted(store, request) is Ok && (recorded(store, request, plan, at) matches Ok(entries)
                && after.login.entries == entries)
            &&& login_validity(store) is Ok && (forall|i: int|
                0 <= i < store.login.entries.len() ==> entry_request(#[trigger] store.login.entries[i], request.id) is None)
                && admitted(store, request) is Ok && (recorded(store, request, plan, at) matches Ok(entries)
                && login_validity(
                (StoreView {
                    login: crate::login_journal::LoginView { entries, ..store.login },
                    ..store
                }),
            ) is Ok) ==> after.login.entries == recorded(store, request, plan, at)->Ok_0
        }),
{
    let held = holds_request(request.id);
    crate::seqs::first_where_found(store.login.entries, held);
    match first_where(store.login.entries, held) {
        Some(at) => {
            assert(held(store.login.entries[at]));
        },
        None => {},
    }
}

/// An edit of the login entry leaves the store, its owner, the profiles, the applications and the instances alone.
pub proof fn login_edits_leave_the_rest(next: Manifest, current: Manifest, i: int)
    requires
        crate::model::differs_in_login(next, current),
        0 <= i < current.profiles@.len(),
    ensures
        next.store_id == current.store_id && next.owner_sid@ == current.owner_sid@,
        next.applications@ == current.applications@ && next.instances@ == current.instances@,
        next.profiles@.len() == current.profiles@.len(),
        ({
            let (a, b) = (next.profiles@[i], current.profiles@[i]);
            &&& a.id == b.id && a.name@ == b.name@ && a.revision == b.revision && a.endpoint == b.endpoint
            &&& a.selected_node_id == b.selected_node_id && a.encoded@ == b.encoded@
            &&& a.source is Manual <==> b.source is Manual
        }),
{
    assert(crate::model::same_profile(next.profiles@[i], current.profiles@[i]));
}

} // verus!
