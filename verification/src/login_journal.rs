//! Requests to create and remove the login entry. Intent and ownership survive lost replies: a request is
//! recorded before the scheduler is touched, and its completion is recorded only after the scheduler was
//! found in the state that was asked for.
use std::sync::Arc;
use vstd::prelude::*;
use vstd::string::*;
use crate::config_transaction::recovered;
use crate::core_requests::RETENTION;
use crate::core_update::idle;
use crate::error::{Error, Result, invalid};
use crate::ids::Uuid;
use crate::login::{Registration, RegistrationView, login_scope, task_metadata};
use crate::model::{Encoding, Instance, Manifest, differs_in_login};
use crate::seqs::{first_where, first_where_found, first_where_is, first_where_none};
use crate::store::{Journal, Store, StoreView, unused_elsewhere};
use crate::text;

verus! {

/// The largest journal, in bytes.
pub const JOURNAL_LIMIT: usize = 2097152;

/// How many entries the journal holds at most.
pub const ENTRIES: usize = 256;

/// What a request asks for.
#[derive(Clone, Copy, Debug, PartialEq, Eq, Structural)]
pub enum Action {
    Create,
    Remove,
}

/// A request. A removal names the creation that it undoes.
#[derive(Clone, Copy, Debug, PartialEq, Eq, Structural)]
pub struct Request {
    pub id: Uuid,
    pub expected_revision: u64,
    pub action: Action,
    pub expected_creation: Option<Uuid>,
}

/// How far a request has come.
#[derive(Clone, Copy, Debug, PartialEq, Eq, Structural)]
pub enum Status {
    Pending { action: Action },
    Created { revision: u64 },
    Removed { revision: u64 },
    Cancelled,
}

/// A creation and the removal that may follow it.
#[derive(Debug)]
pub struct Entry {
    pub create: Request,
    pub registration: Registration,
    pub created_revision: Option<u64>,
    pub removal: Option<Request>,
    pub removed_revision: Option<u64>,
    pub removed_at: Option<u64>,
}

/// The journal of a store.
#[derive(Debug)]
pub struct LoginJournal {
    pub version: u32,
    pub store_id: Uuid,
    pub entries: Vec<Entry>,
}

/// The contents of the journal.
pub struct LoginView {
    pub version: u32,
    pub store_id: Uuid,
    pub entries: Seq<Entry>,
}

impl View for LoginJournal {
    type V = LoginView;

    open spec fn view(&self) -> LoginView {
        LoginView { version: self.version, store_id: self.store_id, entries: self.entries@ }
    }
}

/// The request of an entry with this identifier.
pub open spec fn entry_request(entry: Entry, id: Uuid) -> Option<Request> {
    if entry.create.id == id {
        Some(entry.create)
    } else {
        match entry.removal {
            Some(removal) if removal.id == id => Some(removal),
            _ => None,
        }
    }
}

/// How far a request of an entry has come. A creation that was removed before it was confirmed is
/// cancelled.
pub open spec fn entry_status(entry: Entry, id: Uuid) -> Status {
    if id == entry.create.id {
        match entry.created_revision {
            Some(revision) => Status::Created { revision },
            None => if entry.removed_revision is Some {
                Status::Cancelled
            } else {
                Status::Pending { action: Action::Create }
            },
        }
    } else {
        match entry.removed_revision {
            Some(revision) => Status::Removed { revision },
            None => Status::Pending { action: Action::Remove },
        }
    }
}

impl Entry {
    /// The request of the entry with this identifier.
    pub fn request(&self, id: Uuid) -> (r: Option<Request>)
        ensures
            r == entry_request(*self, id),
    {
        if self.create.id == id {
            return Some(self.create);
        }
        match self.removal {
            Some(removal) => if removal.id == id {
                Some(removal)
            } else {
                None
            },
            None => None,
        }
    }

    /// How far a request of the entry has come.
    pub fn status(&self, id: Uuid) -> (r: Status)
        ensures
            r == entry_status(*self, id),
    {
        if id == self.create.id {
            match self.created_revision {
                Some(revision) => Status::Created { revision },
                None => if self.removed_revision.is_some() {
                    Status::Cancelled
                } else {
                    Status::Pending { action: Action::Create }
                },
            }
        } else {
            match self.removed_revision {
                Some(revision) => Status::Removed { revision },
                None => Status::Pending { action: Action::Remove },
            }
        }
    }
}

/// A request that may be recorded.
pub open spec fn request_sound(request: Request) -> bool {
    request.id.bits != 0 && request.expected_revision != 0 && match request.action {
        Action::Create => request.expected_creation is None,
        Action::Remove => request.expected_creation is Some && request.expected_creation->0.bits
            != 0,
    }
}

/// Check that a request may be recorded.
pub fn valid_request(request: &Request) -> (r: Result<()>)
    ensures
        r == (if request_sound(*request) {
            Ok(())
        } else {
            invalid::<()>("INVALID_GUARD_LOGIN_REQUEST")
        }),
{
    let fits = match request.action {
        Action::Create => request.expected_creation.is_none(),
        Action::Remove => match request.expected_creation {
            Some(id) => !id.is_nil(),
            None => false,
        },
    };
    if request.id.is_nil() || request.expected_revision == 0 || !fits {
        return Err(Error::Invalid("INVALID_GUARD_LOGIN_REQUEST"));
    }
    Ok(())
}

/// An entry holds a request with this identifier.
pub open spec fn holds_request(id: Uuid) -> spec_fn(Entry) -> bool {
    |entry: Entry| entry_request(entry, id) is Some
}

/// An entry whose login entry is not removed.
pub open spec fn is_active() -> spec_fn(Entry) -> bool {
    |entry: Entry| entry.removed_revision is None
}

/// No entry before place `n` holds a request with this identifier.
pub open spec fn unused_before(entries: Seq<Entry>, n: int, id: Uuid) -> bool {
    forall|k: int| 0 <= k < n && k < entries.len() ==> entry_request(#[trigger] entries[k], id) is None
}

/// The creation of an entry agrees with the store and with what was recorded of it.
pub open spec fn creation_sound(entries: Seq<Entry>, i: int, store: Uuid, current: u64) -> bool {
    let e = entries[i];
    e.create.action == Action::Create && e.registration.store_id == store && unused_before(
        entries,
        i,
        e.create.id,
    ) && e.create.expected_revision <= current && (e.created_revision matches Some(r)
        ==> e.create.expected_revision < r <= current) && (e.removed_revision is Some
        <==> e.removed_at is Some) && (e.removed_revision is Some ==> e.removal is Some)
}

/// The removal of an entry agrees with its creation.
pub open spec fn removal_sound(entries: Seq<Entry>, i: int, current: u64) -> bool {
    let e = entries[i];
    e.removal matches Some(removal) ==> removal.action == Action::Remove
        && removal.expected_creation == Some(e.create.id) && removal.id != e.create.id
        && unused_before(entries, i, removal.id) && removal.expected_revision <= current
        && removal.expected_revision >= (match e.created_revision {
        Some(r) => r,
        None => e.create.expected_revision,
    }) && (e.removed_revision matches Some(r) ==> removal.expected_revision <= r <= current)
}

/// Why entry `i` may not be used.
pub open spec fn entry_verdict(
    entries: Seq<Entry>,
    i: int,
    store: Uuid,
    current: u64,
    sid: Seq<char>,
) -> Result<()> {
    let e = entries[i];
    if !request_sound(e.create) {
        invalid("INVALID_GUARD_LOGIN_REQUEST")
    } else if login_scope(e.registration@, sid) is Err {
        login_scope(e.registration@, sid)
    } else if !creation_sound(entries, i, store, current) {
        invalid("GUARD_LOGIN_JOURNAL_INVALID")
    } else if e.removal is Some && !request_sound(e.removal->0) {
        invalid("INVALID_GUARD_LOGIN_REQUEST")
    } else if !removal_sound(entries, i, current) {
        invalid("GUARD_LOGIN_JOURNAL_INVALID")
    } else {
        Ok(())
    }
}

/// The first entry from place `i` on that may not be used decides.
pub open spec fn entries_verdict(
    entries: Seq<Entry>,
    i: int,
    store: Uuid,
    current: u64,
    sid: Seq<char>,
) -> Result<()>
    decreases entries.len() - i,
{
    if i < 0 || i >= entries.len() {
        Ok(())
    } else if entry_verdict(entries, i, store, current, sid) is Err {
        entry_verdict(entries, i, store, current, sid)
    } else {
        entries_verdict(entries, i + 1, store, current, sid)
    }
}

/// At most one login entry is not removed.
pub open spec fn one_active(entries: Seq<Entry>) -> bool {
    forall|i: int, j: int|
        0 <= i < j < entries.len() ==> !((#[trigger] entries[i]).removed_revision is None && (
        #[trigger] entries[j]).removed_revision is None)
}

/// Why the journal may not be used.
pub open spec fn journal_validity(
    journal: LoginView,
    store: Uuid,
    current: u64,
    sid: Seq<char>,
) -> Result<()> {
    if journal.version != 1 || journal.store_id != store || journal.entries.len() > ENTRIES {
        invalid("GUARD_LOGIN_JOURNAL_INVALID")
    } else if entries_verdict(journal.entries, 0, store, current, sid) is Err {
        entries_verdict(journal.entries, 0, store, current, sid)
    } else if !one_active(journal.entries) {
        invalid("GUARD_LOGIN_JOURNAL_INVALID")
    } else {
        Ok(())
    }
}

/// Why the store's journal may not be used.
pub open spec fn login_validity(store: StoreView) -> Result<()> {
    journal_validity(
        store.login,
        store.manifest.store_id,
        store.manifest.revision,
        store.user_sid,
    )
}

fn is_unused_before(entries: &[Entry], n: usize, id: Uuid) -> (r: bool)
    requires
        n <= entries@.len(),
    ensures
        r == unused_before(entries@, n as int, id),
{
    let mut k: usize = 0;
    while k < n
        invariant
            k <= n <= entries@.len(),
            forall|m: int| 0 <= m < k ==> entry_request(#[trigger] entries@[m], id) is None,
        decreases n - k,
    {
        if entries[k].request(id).is_some() {
            proof {
                assert(entry_request(entries@[k as int], id) is Some);
            }
            return false;
        }
        k += 1;
    }
    true
}

fn check_entry(entries: &[Entry], i: usize, store: Uuid, current: u64, sid: &str) -> (r: Result<()>)
    requires
        i < entries@.len(),
    ensures
        r == entry_verdict(entries@, i as int, store, current, sid@),
{
    let e = &entries[i];
    valid_request(&e.create)?;
    e.registration.spec(sid)?;
    let confirmed = match e.created_revision {
        Some(revision) => e.create.expected_revision < revision && revision <= current,
        None => true,
    };
    if !matches!(e.create.action, Action::Create) || e.registration.store_id != store
        || !is_unused_before(entries, i, e.create.id) || e.create.expected_revision > current
        || !confirmed || e.removed_revision.is_some() != e.removed_at.is_some() || (
    e.removed_revision.is_some() && e.removal.is_none()) {
        return Err(Error::Invalid("GUARD_LOGIN_JOURNAL_INVALID"));
    }
    match e.removal {
        Some(removal) => {
            valid_request(&removal)?;
            let since: u64 = match e.created_revision {
                Some(revision) => revision,
                None => e.create.expected_revision,
            };
            let ended = match e.removed_revision {
                Some(revision) => removal.expected_revision <= revision && revision <= current,
                None => true,
            };
            let undoes = match removal.expected_creation {
                Some(id) => id == e.create.id,
                None => false,
            };
            if !matches!(removal.action, Action::Remove) || !undoes || removal.id == e.create.id
                || !is_unused_before(entries, i, removal.id) || removal.expected_revision > current
                || removal.expected_revision < since || !ended {
                return Err(Error::Invalid("GUARD_LOGIN_JOURNAL_INVALID"));
            }
            Ok(())
        },
        None => Ok(()),
    }
}

/// Check a journal against the store it lies in.
pub fn validate(journal: &LoginJournal, store: Uuid, current: u64, sid: &str) -> (r: Result<()>)
    ensures
        r == journal_validity(journal@, store, current, sid@),
{
    if journal.version != 1 || journal.store_id != store || journal.entries.len() > ENTRIES {
        return Err(Error::Invalid("GUARD_LOGIN_JOURNAL_INVALID"));
    }
    let mut i: usize = 0;
    let mut active: Option<usize> = None;
    let mut twice = false;
    while i < journal.entries.len()
        invariant
            i <= journal.entries.len(),
            journal.version == 1,
            journal.store_id == store,
            journal.entries@.len() <= ENTRIES,
            entries_verdict(journal.entries@, 0, store, current, sid@) == entries_verdict(
                journal.entries@,
                i as int,
                store,
                current,
                sid@,
            ),
            match active {
                Some(at) => at < i && journal.entries@[at as int].removed_revision is None,
                None => forall|k: int|
                    0 <= k < i ==> (#[trigger] journal.entries@[k]).removed_revision is Some,
            },
            !twice ==> forall|a: int, b: int|
                0 <= a < b < i ==> !((#[trigger] journal.entries@[a]).removed_revision is None && (
                #[trigger] journal.entries@[b]).removed_revision is None),
            twice ==> !one_active(journal.entries@),
        decreases journal.entries.len() - i,
    {
        check_entry(journal.entries.as_slice(), i, store, current, sid)?;
        if journal.entries[i].removed_revision.is_none() {
            if active.is_some() {
                twice = true;
                proof {
                    let a = active->0 as int;
                    assert(journal.entries@[a].removed_revision is None
                        && journal.entries@[i as int].removed_revision is None);
                }
            }
            proof {
                if active is None {
                    assert forall|a: int, b: int| 0 <= a < b < i + 1 implies !((
                    #[trigger] journal.entries@[a]).removed_revision is None && (
                    #[trigger] journal.entries@[b]).removed_revision is None) by {
                        assert(journal.entries@[a].removed_revision is Some);
                    }
                }
            }
            active = Some(i);
        }
        i += 1;
    }
    if twice {
        return Err(Error::Invalid("GUARD_LOGIN_JOURNAL_INVALID"));
    }
    Ok(())
}

/// Some instance is guarded.
pub open spec fn any_guarded(instances: Seq<Instance>) -> bool {
    exists|i: int| 0 <= i < instances.len() && (#[trigger] instances[i]).guarded
}

fn has_guarded(instances: &[Instance]) -> (r: bool)
    ensures
        r == any_guarded(instances@),
{
    let mut i: usize = 0;
    while i < instances.len()
        invariant
            i <= instances.len(),
            forall|k: int| 0 <= k < i ==> !(#[trigger] instances@[k]).guarded,
        decreases instances.len() - i,
    {
        if instances[i].guarded {
            return true;
        }
        i += 1;
    }
    false
}

/// Work for the scheduler: the request, the registration that was recorded with it, and whether a
/// missing task may be created.
#[derive(Debug)]
pub struct Job {
    pub request: Request,
    pub registration: Registration,
    pub create_allowed: bool,
}

/// Work that the scheduler was found to have done. Only a job makes one.
#[derive(Debug)]
pub struct Completion {
    job: Job,
}

impl Completion {
    /// The work that was done.
    pub closed spec fn work(self) -> Job {
        self.job
    }

    /// The work that was done.
    pub fn job(&self) -> (r: &Job)
        ensures
            *r == self.work(),
    {
        &self.job
    }
}

/// What a request leads to: it is complete, or there is work for the scheduler.
#[derive(Debug)]
pub enum Preparation {
    Complete(Status),
    Pending(Job),
}

/// What a job asks of the scheduler next: to tell whether the task exists exactly as registered, to create it, to
/// remove it, or nothing any more. `NotNeeded` says that the task is missing and may not be created.
#[derive(Clone, Copy, Debug, PartialEq, Eq, Structural)]
pub enum Step {
    Exists,
    Register,
    Remove,
    Finished,
    NotNeeded,
}

/// What is due of a job, once it is known or not known whether the task exists. A removal asks for nothing but
/// the removal; a creation never asks for it, and creates only a missing task, if it may be created.
pub open spec fn due_step(job: Job, exists: Option<bool>) -> Step {
    match (job.request.action, exists) {
        (Action::Remove, _) => Step::Remove,
        (Action::Create, None) => Step::Exists,
        (Action::Create, Some(true)) => Step::Finished,
        (Action::Create, Some(false)) => if job.create_allowed {
            Step::Register
        } else {
            Step::NotNeeded
        },
    }
}

/// What carrying out a job comes to: only the outcomes of the operations that were due are looked at.
pub open spec fn executed(
    job: Job,
    exists: Result<bool>,
    register: Result<()>,
    remove: Result<()>,
) -> Result<()> {
    if due_step(job, None) == Step::Remove {
        remove
    } else {
        match exists {
            Err(e) => Err(e),
            Ok(found) => match due_step(job, Some(found)) {
                Step::Finished => Ok(()),
                Step::Register => register,
                _ => invalid("GUARD_LOGIN_NOT_NEEDED"),
            },
        }
    }
}

/// Operations that are not due decide nothing: of a removal only the removal counts, of a creation never the
/// removal, and of a task that exists or may not be created not its creation either.
pub proof fn only_due_operations_count(
    job: Job,
    exists: Result<bool>,
    register: Result<()>,
    remove: Result<()>,
    other_exists: Result<bool>,
    other_register: Result<()>,
    other_remove: Result<()>,
)
    ensures
        due_step(job, None) == Step::Remove ==> executed(job, exists, register, remove) == executed(
            job,
            other_exists,
            other_register,
            remove,
        ),
        due_step(job, None) != Step::Remove ==> executed(job, exists, register, remove) == executed(
            job,
            exists,
            register,
            other_remove,
        ),
        exists matches Ok(found) && due_step(job, Some(found)) != Step::Register ==> executed(
            job,
            exists,
            register,
            remove,
        ) == executed(job, exists, other_register, remove),
{
}

impl Job {
    /// What the scheduler is to be asked next, once it is known or not known whether the task exists.
    pub fn due(&self, exists: Option<bool>) -> (r: Step)
        ensures
            r == due_step(*self, exists),
            r == Step::Register ==> self.request.action == Action::Create && exists == Some(false)
                && self.create_allowed,
    {
        match (self.request.action, exists) {
            (Action::Remove, _) => Step::Remove,
            (Action::Create, None) => Step::Exists,
            (Action::Create, Some(true)) => Step::Finished,
            (Action::Create, Some(false)) => if self.create_allowed {
                Step::Register
            } else {
                Step::NotNeeded
            },
        }
    }

    /// What carrying out the job came to. `exists` tells whether the task exists exactly as registered,
    /// `register` what creating it came to, `remove` what removing it came to; only those that were due are
    /// looked at.
    pub fn execute(self, exists: Result<bool>, register: Result<()>, remove: Result<()>) -> (r: Result<
        Completion,
    >)
        ensures
            match executed(self, exists, register, remove) {
                Err(e) => r == Err::<Completion, Error>(e),
                Ok(_) => r matches Ok(completion) && completion.work() == self,
            },
    {
        match self.due(None) {
            Step::Remove => {
                remove?;
            },
            _ => {
                let found = exists?;
                match self.due(Some(found)) {
                    Step::Finished => {},
                    Step::Register => {
                        register?;
                    },
                    _ => {
                        return Err(Error::Invalid("GUARD_LOGIN_NOT_NEEDED"));
                    },
                }
            },
        }
        Ok(Completion { job: self })
    }

    /// Check that a prepared registration is the one that the job was recorded with.
    pub fn authorize(&self, prepared: Option<&Registration>) -> (r: Result<()>)
        ensures
            r == (match prepared {
                None => invalid("GUARD_LOGIN_AUTHORIZATION_REQUIRED"),
                Some(registration) => if registration@ == self.registration@ {
                    Ok(())
                } else {
                    invalid("GUARD_LOGIN_REGISTRATION_CHANGED")
                },
            }),
    {
        match prepared {
            None => Err(Error::Invalid("GUARD_LOGIN_AUTHORIZATION_REQUIRED")),
            Some(registration) => {
                if !registration.same(&self.registration) {
                    return Err(Error::Invalid("GUARD_LOGIN_REGISTRATION_CHANGED"));
                }
                Ok(())
            },
        }
    }
}

/// The fullest that a journal can become, as `Store::login_capacity` tells it, and the size of its encoding.
#[derive(Debug)]
pub struct Measured {
    pub journal: LoginJournal,
    pub size: usize,
}

/// A registration for a new login entry. `home` and `root` are what resolving the place that it names and the
/// place of this store came to, `measured` is the journal that has to fit once the entry is recorded.
#[derive(Debug)]
pub struct LoginPlan {
    pub registration: Registration,
    pub home: Result<String>,
    pub root: Result<String>,
    pub measured: Measured,
}

/// A new entry.
pub open spec fn new_entry(request: Request, registration: Registration) -> Entry {
    Entry {
        create: request,
        registration,
        created_revision: None,
        removal: None,
        removed_revision: None,
        removed_at: None,
    }
}

/// An entry as full as it can become: completed and removed, with the longest numbers.
pub open spec fn fullest(entry: Entry) -> Entry {
    if entry.removed_revision is Some {
        entry
    } else {
        Entry {
            created_revision: Some(u64::MAX),
            removal: Some(
                Request {
                    id: entry.create.id,
                    expected_revision: u64::MAX,
                    action: Action::Remove,
                    expected_creation: Some(entry.create.id),
                },
            ),
            removed_revision: Some(u64::MAX),
            removed_at: Some(u64::MAX),
            ..entry
        }
    }
}

/// Entries as full as they can become.
pub open spec fn capacity(entries: Seq<Entry>) -> Seq<Entry> {
    entries.map_values(|entry: Entry| fullest(entry))
}

/// Two entries with the same contents.
pub open spec fn same_entry(a: Entry, b: Entry) -> bool {
    a.create == b.create && a.registration@ == b.registration@ && a.created_revision
        == b.created_revision && a.removal == b.removal && a.removed_revision == b.removed_revision
        && a.removed_at == b.removed_at
}

/// Entries with the same contents, in order.
pub open spec fn same_entries(a: Seq<Entry>, b: Seq<Entry>) -> bool {
    a.len() == b.len() && forall|i: int| 0 <= i < a.len() ==> same_entry(#[trigger] a[i], b[i])
}

/// The journal that has to fit once a creation is recorded: the entries that are retained and the new one, as full
/// as they can become.
pub open spec fn planned(store: StoreView, request: Request, registration: Registration, at: u64) -> LoginView {
    LoginView {
        version: store.login.version,
        store_id: store.login.store_id,
        entries: capacity(
            retained(store.login.entries, cutoff(at)).push(new_entry(request, registration)),
        ),
    }
}

/// A measure shows that a journal fits: it was taken of that journal, and is within the limit.
pub open spec fn shows_room(measured: Measured, journal: LoginView) -> bool {
    measured.journal.version == journal.version && measured.journal.store_id == journal.store_id
        && same_entries(measured.journal.entries@, journal.entries) && measured.size <= JOURNAL_LIMIT
}

/// Why two places are not the same one.
pub open spec fn same_place(home: Result<String>, root: Result<String>) -> Result<()> {
    match (home, root) {
        (Err(e), _) => Err(e),
        (Ok(_), Err(e)) => Err(e),
        (Ok(a), Ok(b)) => if a@ == b@ {
            Ok(())
        } else {
            invalid("GUARD_LOGIN_STORE_MISMATCH")
        },
    }
}

/// What a recorded request leads to, or that it is not recorded.
pub open spec fn preparation(store: StoreView, id: Uuid) -> Result<Preparation> {
    match first_where(store.login.entries, holds_request(id)) {
        None => invalid("GUARD_LOGIN_REQUEST_NOT_FOUND"),
        Some(at) => {
            let entry = store.login.entries[at];
            if !(entry_status(entry, id) is Pending) {
                Ok(Preparation::Complete(entry_status(entry, id)))
            } else if entry.removal is Some && entry.removal->0.id != id {
                invalid("GUARD_LOGIN_REMOVAL_PENDING")
            } else {
                match idle(store) {
                    Err(e) => Err(e),
                    Ok(_) => Ok(
                        Preparation::Pending(
                            Job {
                                request: entry_request(entry, id)->0,
                                registration: entry.registration,
                                create_allowed: any_guarded(store.manifest.instances@),
                            },
                        ),
                    ),
                }
            }
        },
    }
}

/// The entries that stay when removed ones are older than the retention time.
pub open spec fn retained(entries: Seq<Entry>, cutoff: u64) -> Seq<Entry>
    decreases entries.len(),
{
    if entries.len() == 0 {
        entries
    } else {
        let front = retained(entries.drop_last(), cutoff);
        match entries.last().removed_at {
            Some(at) if at < cutoff => front,
            _ => front.push(entries.last()),
        }
    }
}

/// The time before which removed entries are dropped.
pub open spec fn cutoff(at: u64) -> u64 {
    if at < RETENTION {
        0
    } else {
        (at - RETENTION) as u64
    }
}

/// The journal once a creation or removal is recorded, or why it is not.
pub open spec fn recorded(
    store: StoreView,
    request: Request,
    plan: Option<LoginPlan>,
    at: u64,
) -> Result<Seq<Entry>> {
    let active = first_where(store.login.entries, is_active());
    match request.action {
        Action::Create => if active is Some || store.manifest.login_task is Some {
            invalid("GUARD_LOGIN_ALREADY_REGISTERED")
        } else if !any_guarded(store.manifest.instances@) {
            invalid("GUARD_LOGIN_NOT_NEEDED")
        } else {
            match plan {
                None => invalid("GUARD_LOGIN_AUTHORIZATION_REQUIRED"),
                Some(plan) => if login_scope(plan.registration@, store.user_sid) is Err {
                    Err(login_scope(plan.registration@, store.user_sid)->Err_0)
                } else if plan.registration.store_id != store.manifest.store_id {
                    invalid("GUARD_LOGIN_STORE_MISMATCH")
                } else if same_place(plan.home, plan.root) is Err {
                    Err(same_place(plan.home, plan.root)->Err_0)
                } else {
                    let kept = retained(store.login.entries, cutoff(at));
                    if kept.len() >= ENTRIES || !shows_room(
                        plan.measured,
                        planned(store, request, plan.registration, at),
                    ) {
                        invalid("GUARD_LOGIN_RECORD_LIMIT")
                    } else {
                        Ok(kept.push(new_entry(request, plan.registration)))
                    }
                },
            }
        },
        Action::Remove => match active {
            None => invalid("GUARD_LOGIN_OWNERSHIP_UNAVAILABLE"),
            Some(place) => {
                let entry = store.login.entries[place];
                if request.expected_creation != Some(entry.create.id) {
                    invalid("GUARD_LOGIN_REGISTRATION_CHANGED")
                } else if entry.removal is Some {
                    invalid("GUARD_LOGIN_OPERATION_PENDING")
                } else {
                    Ok(
                        store.login.entries.update(
                            place,
                            Entry { removal: Some(request), ..entry },
                        ),
                    )
                }
            },
        },
    }
}

/// A repeated request: a conflict, its final status, or nothing that decides yet.
pub open spec fn repeated(store: StoreView, request: Request) -> Result<Option<Status>> {
    if login_validity(store) is Err {
        Err(login_validity(store)->Err_0)
    } else {
        match first_where(store.login.entries, holds_request(request.id)) {
            None => Ok(None),
            Some(at) => {
                let entry = store.login.entries[at];
                if entry_request(entry, request.id) != Some(request) {
                    invalid("REQUEST_ID_CONFLICT")
                } else if entry_status(entry, request.id) is Pending {
                    Ok(None)
                } else {
                    Ok(Some(entry_status(entry, request.id)))
                }
            },
        }
    }
}

/// Whether a new request is admitted in a recovered store.
pub open spec fn admitted(store: StoreView, request: Request) -> Result<()> {
    if unused_elsewhere(store, request.id, Journal::Login) is Err {
        unused_elsewhere(store, request.id, Journal::Login)
    } else if idle(store) is Err {
        idle(store)
    } else if store.manifest.revision != request.expected_revision {
        invalid("STALE_MANIFEST_REVISION")
    } else {
        Ok(())
    }
}

/// The store with another list of entries.
pub open spec fn with_entries(store: StoreView, entries: Seq<Entry>) -> StoreView {
    StoreView { login: LoginView { entries, ..store.login }, ..store }
}

/// What a request leads to in a recovered store, and the store that it leaves.
pub open spec fn begun(
    store: StoreView,
    request: Request,
    plan: Option<LoginPlan>,
    at: u64,
) -> (StoreView, Result<Preparation>) {
    if login_validity(store) is Err {
        (store, Err(login_validity(store)->Err_0))
    } else {
        match first_where(store.login.entries, holds_request(request.id)) {
            Some(place) => if entry_request(store.login.entries[place], request.id) != Some(
                request,
            ) {
                (store, invalid("REQUEST_ID_CONFLICT"))
            } else {
                (store, preparation(store, request.id))
            },
            None => if admitted(store, request) is Err {
                (store, Err(admitted(store, request)->Err_0))
            } else {
                match recorded(store, request, plan, at) {
                    Err(e) => (store, Err(e)),
                    Ok(entries) => {
                        let next = with_entries(store, entries);
                        if login_validity(next) is Err {
                            (store, Err(login_validity(next)->Err_0))
                        } else {
                            (next, preparation(next, request.id))
                        }
                    },
                }
            },
        }
    }
}

/// Beginning a request, from the store before to the store after.
pub open spec fn begin_outcome(
    store: StoreView,
    request: Request,
    plan: Option<LoginPlan>,
    lease: Result<()>,
    at: u64,
) -> (StoreView, Result<Preparation>) {
    if !request_sound(request) {
        (store, invalid("INVALID_GUARD_LOGIN_REQUEST"))
    } else {
        match repeated(store, request) {
            Err(e) => (store, Err(e)),
            Ok(Some(status)) => (store, Ok(Preparation::Complete(status))),
            Ok(None) => if lease is Err {
                (store, Err(lease->Err_0))
            } else {
                let (clean, recovery) = recovered(store, at);
                if recovery is Err {
                    (clean, Err(recovery->Err_0))
                } else {
                    begun(clean, request, plan, at)
                }
            },
        }
    }
}

/// The configuration that a completed request leads to: the next revision, which differs from the current one
/// in the recorded login task alone.
pub open spec fn follows(
    current: Manifest,
    next: Manifest,
    create: bool,
    registration: RegistrationView,
    sid: Seq<char>,
) -> bool {
    differs_in_login(next, current) && next.revision == current.revision + 1 && match next.login_task {
        Some(task) => create && task_metadata(task, registration, sid),
        None => !create,
    }
}

/// Whether a completion may be recorded in a recovered store: `Ok(Some(status))` says that it is recorded
/// already.
pub open spec fn completable(store: StoreView, job: Job) -> Result<Option<Status>> {
    if idle(store) is Err {
        Err(idle(store)->Err_0)
    } else if login_validity(store) is Err {
        Err(login_validity(store)->Err_0)
    } else {
        match first_where(store.login.entries, holds_request(job.request.id)) {
            None => invalid("GUARD_LOGIN_REQUEST_NOT_FOUND"),
            Some(at) => {
                let entry = store.login.entries[at];
                if entry_request(entry, job.request.id) != Some(job.request) || entry.registration@
                    != job.registration@ {
                    invalid("REQUEST_ID_CONFLICT")
                } else if !(entry_status(entry, job.request.id) is Pending) {
                    Ok(Some(entry_status(entry, job.request.id)))
                } else if entry.removal is Some && entry.removal->0.id != job.request.id {
                    invalid("GUARD_LOGIN_REMOVAL_PENDING")
                } else if login_scope(entry.registration@, store.user_sid) is Err {
                    Err(login_scope(entry.registration@, store.user_sid)->Err_0)
                } else if store.manifest.login_task is Some && !task_metadata(
                    store.manifest.login_task->0,
                    entry.registration@,
                    store.user_sid,
                ) {
                    invalid("GUARD_LOGIN_METADATA_CONFLICT")
                } else {
                    Ok(None)
                }
            },
        }
    }
}

/// The configuration has to change for a completion to be recorded.
pub open spec fn changes(store: StoreView, job: Job) -> bool {
    (job.request.action == Action::Create) != (store.manifest.login_task is Some)
}

/// An entry whose request was completed at this revision.
pub open spec fn completed_entry(entry: Entry, action: Action, revision: u64, at: u64) -> Entry {
    match action {
        Action::Create => Entry { created_revision: Some(revision), ..entry },
        Action::Remove => Entry {
            removed_revision: Some(revision),
            removed_at: Some(at),
            ..entry
        },
    }
}

/// The store once the configuration is the one that a completed request leads to.
pub open spec fn committed(store: StoreView, job: Job, next: Manifest) -> StoreView {
    if changes(store, job) {
        StoreView { manifest: next, ..store }
    } else {
        store
    }
}

/// The second durable step of a completion: the journal records it.
pub open spec fn concluded(store: StoreView, job: Job, at: u64) -> (StoreView, Result<Status>) {
    let place = first_where(store.login.entries, holds_request(job.request.id))->0;
    let entry = completed_entry(
        store.login.entries[place],
        job.request.action,
        store.manifest.revision,
        at,
    );
    let next = with_entries(store, store.login.entries.update(place, entry));
    if login_validity(next) is Err {
        (store, Err(login_validity(next)->Err_0))
    } else {
        (next, Ok(entry_status(entry, job.request.id)))
    }
}

/// Completing a request in a recovered store.
pub open spec fn completed(store: StoreView, job: Job, next: Manifest, at: u64) -> (
    StoreView,
    Result<Status>,
) {
    match completable(store, job) {
        Err(e) => (store, Err(e)),
        Ok(Some(status)) => (store, Ok(status)),
        Ok(None) => concluded(committed(store, job, next), job, at),
    }
}

fn find_request(entries: &[Entry], id: Uuid) -> (r: Option<usize>)
    ensures
        match (r, first_where(entries@, holds_request(id))) {
            (Some(at), Some(place)) => at == place && at < entries.len() && entry_request(
                entries@[at as int],
                id,
            ) is Some,
            (None, None) => true,
            _ => false,
        },
{
    let mut i: usize = 0;
    while i < entries.len()
        invariant
            i <= entries.len(),
            forall|k: int| 0 <= k < i ==> !holds_request(id)(#[trigger] entries@[k]),
        decreases entries.len() - i,
    {
        if entries[i].request(id).is_some() {
            proof {
                first_where_is(entries@, holds_request(id), i as int);
            }
            return Some(i);
        }
        i += 1;
    }
    proof {
        first_where_none(entries@, holds_request(id));
    }
    None
}

fn find_active(entries: &[Entry]) -> (r: Option<usize>)
    ensures
        match (r, first_where(entries@, is_active())) {
            (Some(at), Some(place)) => at == place && at < entries.len(),
            (None, None) => true,
            _ => false,
        },
{
    let mut i: usize = 0;
    while i < entries.len()
        invariant
            i <= entries.len(),
            forall|k: int| 0 <= k < i ==> !is_active()(#[trigger] entries@[k]),
        decreases entries.len() - i,
    {
        if entries[i].removed_revision.is_none() {
            proof {
                first_where_is(entries@, is_active(), i as int);
            }
            return Some(i);
        }
        i += 1;
    }
    proof {
        first_where_none(entries@, is_active());
    }
    None
}

fn copy_entry(entry: &Entry) -> (r: Entry)
    ensures
        r == *entry,
{
    Entry {
        create: entry.create,
        registration: entry.registration.copy(),
        created_revision: entry.created_revision,
        removal: entry.removal,
        removed_revision: entry.removed_revision,
        removed_at: entry.removed_at,
    }
}

fn copy_retained(entries: &[Entry], before: u64) -> (r: Vec<Entry>)
    ensures
        r@ == retained(entries@, before),
{
    let mut out: Vec<Entry> = Vec::new();
    let mut i: usize = 0;
    proof {
        assert(out@ =~= entries@.take(0));
    }
    while i < entries.len()
        invariant
            i <= entries.len(),
            out@ == retained(entries@.take(i as int), before),
        decreases entries.len() - i,
    {
        proof {
            assert(entries@.take(i + 1).drop_last() =~= entries@.take(i as int));
        }
        let old = match entries[i].removed_at {
            Some(at) => at < before,
            None => false,
        };
        if !old {
            out.push(copy_entry(&entries[i]));
        }
        i += 1;
    }
    proof {
        assert(entries@.take(entries@.len() as int) =~= entries@);
    }
    out
}

fn copy_entries(entries: &[Entry]) -> (r: Vec<Entry>)
    ensures
        r@ == entries@,
{
    let mut out: Vec<Entry> = Vec::new();
    let mut i: usize = 0;
    while i < entries.len()
        invariant
            i <= entries.len(),
            out@ == entries@.take(i as int),
        decreases entries.len() - i,
    {
        out.push(copy_entry(&entries[i]));
        i += 1;
        proof {
            assert(entries@.take(i as int) =~= entries@.take(i - 1).push(entries@[i - 1]));
        }
    }
    proof {
        assert(entries@.take(entries@.len() as int) =~= entries@);
    }
    out
}

/// The journal as large as it can become without another creation: every entry that is not removed is
/// completed with the longest numbers. Its encoding has to fit before a creation is recorded, so that
/// completing and removing can never fail for want of room.
pub fn reserve_capacity(journal: &LoginJournal) -> (r: LoginJournal)
    ensures
        r@ == (LoginView { entries: capacity(journal@.entries), ..journal@ }),
{
    let mut entries: Vec<Entry> = Vec::new();
    let mut i: usize = 0;
    while i < journal.entries.len()
        invariant
            i <= journal.entries.len(),
            entries@.len() == i,
            forall|k: int| 0 <= k < i ==> (#[trigger] entries@[k]) == fullest(journal.entries@[k]),
        decreases journal.entries.len() - i,
    {
        let mut entry = copy_entry(&journal.entries[i]);
        if entry.removed_revision.is_none() {
            let id = entry.create.id;
            entry.created_revision = Some(u64::MAX);
            entry.removal = Some(
                Request {
                    id,
                    expected_revision: u64::MAX,
                    action: Action::Remove,
                    expected_creation: Some(id),
                },
            );
            entry.removed_revision = Some(u64::MAX);
            entry.removed_at = Some(u64::MAX);
        }
        entries.push(entry);
        i += 1;
    }
    proof {
        assert(entries@ =~= capacity(journal@.entries));
    }
    LoginJournal { version: journal.version, store_id: journal.store_id, entries }
}

fn is_same_request(a: Option<Request>, b: Option<Request>) -> (r: bool)
    ensures
        r == (a == b),
{
    match (a, b) {
        (Some(x), Some(y)) => x == y,
        (None, None) => true,
        _ => false,
    }
}

fn is_same_number(a: Option<u64>, b: Option<u64>) -> (r: bool)
    ensures
        r == (a == b),
{
    match (a, b) {
        (Some(x), Some(y)) => x == y,
        (None, None) => true,
        _ => false,
    }
}

fn is_same_entries(a: &[Entry], b: &[Entry]) -> (r: bool)
    ensures
        r == same_entries(a@, b@),
{
    if a.len() != b.len() {
        return false;
    }
    let mut i: usize = 0;
    while i < a.len()
        invariant
            i <= a.len(),
            a.len() == b.len(),
            forall|k: int| 0 <= k < i ==> same_entry(#[trigger] a@[k], b@[k]),
        decreases a.len() - i,
    {
        let x = &a[i];
        let y = &b[i];
        if x.create != y.create || !x.registration.same(&y.registration) || !is_same_number(
            x.created_revision,
            y.created_revision,
        ) || !is_same_request(x.removal, y.removal) || !is_same_number(
            x.removed_revision,
            y.removed_revision,
        ) || !is_same_number(x.removed_at, y.removed_at) {
            proof {
                assert(!same_entry(a@[i as int], b@[i as int]));
            }
            return false;
        }
        i += 1;
    }
    true
}

impl Store {
    fn check_login(&self) -> (r: Result<()>)
        ensures
            r == login_validity(self@),
    {
        validate(
            &self.login,
            self.manifest.store_id,
            self.manifest.revision,
            self.user_sid.as_str(),
        )
    }

    /// The place of a request in the journal, once the journal is found usable.
    pub(crate) fn find_login_request(&self, id: Uuid) -> (r: Result<Option<usize>>)
        ensures
            if login_validity(self@) is Err {
                r == Err::<Option<usize>, Error>(login_validity(self@)->Err_0)
            } else {
                match first_where(self@.login.entries, holds_request(id)) {
                    Some(place) => r matches Ok(Some(at)) && at == place && at
                        < self.login.entries.len(),
                    None => r == Ok::<Option<usize>, Error>(None),
                }
            },
    {
        self.check_login()?;
        Ok(find_request(self.login.entries.as_slice(), id))
    }

    /// How far a request has come, if it is recorded.
    pub fn login_request_status(&self, id: Uuid) -> (r: Result<Option<Status>>)
        ensures
            login_status_told(self@, id, r),
    {
        if id.is_nil() {
            return Err(Error::Invalid("INVALID_REQUEST_ID"));
        }
        match self.find_login_request(id)? {
            None => Ok(None),
            Some(at) => Ok(Some(self.login.entries[at].status(id))),
        }
    }

    /// The login entry that is not removed: its latest request, how far that has come, and the
    /// registration. This tells what was recorded, not what the scheduler holds.
    pub fn login_registration(&self) -> (r: Result<Option<(Request, Status, Registration)>>)
        ensures
            login_told(self@, r),
    {
        self.check_login()?;
        match find_active(self.login.entries.as_slice()) {
            None => Ok(None),
            Some(at) => {
                let entry = &self.login.entries[at];
                let request = match entry.removal {
                    Some(removal) => removal,
                    None => entry.create,
                };
                Ok(Some((request, entry.status(request.id), entry.registration.copy())))
            },
        }
    }

    fn login_preparation(&self, id: Uuid) -> (r: Result<Preparation>)
        ensures
            r == preparation(self@, id),
    {
        match find_request(self.login.entries.as_slice(), id) {
            None => Err(Error::Invalid("GUARD_LOGIN_REQUEST_NOT_FOUND")),
            Some(at) => {
                let entry = &self.login.entries[at];
                let status = entry.status(id);
                if !matches!(status, Status::Pending { .. }) {
                    return Ok(Preparation::Complete(status));
                }
                match entry.removal {
                    Some(removal) => {
                        if removal.id != id {
                            return Err(Error::Invalid("GUARD_LOGIN_REMOVAL_PENDING"));
                        }
                    },
                    None => {},
                }
                self.ensure_core_update_idle()?;
                match entry.request(id) {
                    Some(request) => Ok(
                        Preparation::Pending(
                            Job {
                                request,
                                registration: entry.registration.copy(),
                                create_allowed: has_guarded(self.manifest.instances.as_slice()),
                            },
                        ),
                    ),
                    None => {
                        proof {
                            assert(false);
                        }
                        Err(Error::Invalid("GUARD_LOGIN_REQUEST_NOT_FOUND"))
                    },
                }
            },
        }
    }

    /// The journal whose encoding has to fit before a creation is recorded.
    pub fn login_capacity(&self, request: &Request, registration: &Registration, at: u64) -> (r:
        LoginJournal)
        ensures
            r@ == planned(self@, *request, *registration, at),
    {
        let before: u64 = if at < RETENTION {
            0
        } else {
            at - RETENTION
        };
        let mut entries = copy_retained(self.login.entries.as_slice(), before);
        entries.push(
            Entry {
                create: *request,
                registration: registration.copy(),
                created_revision: None,
                removal: None,
                removed_revision: None,
                removed_at: None,
            },
        );
        reserve_capacity(
            &LoginJournal { version: self.login.version, store_id: self.login.store_id, entries },
        )
    }

    fn record_login(&self, request: &Request, plan: Option<LoginPlan>, at: u64) -> (r: Result<
        Vec<Entry>,
    >)
        ensures
            match recorded(self@, *request, plan, at) {
                Err(e) => r == Err::<Vec<Entry>, Error>(e),
                Ok(entries) => r matches Ok(made) && made@ == entries,
            },
    {
        let active = find_active(self.login.entries.as_slice());
        match request.action {
            Action::Create => {
                if active.is_some() || self.manifest.login_task.is_some() {
                    return Err(Error::Invalid("GUARD_LOGIN_ALREADY_REGISTERED"));
                }
                if !has_guarded(self.manifest.instances.as_slice()) {
                    return Err(Error::Invalid("GUARD_LOGIN_NOT_NEEDED"));
                }
                let plan = match plan {
                    Some(plan) => plan,
                    None => {
                        return Err(Error::Invalid("GUARD_LOGIN_AUTHORIZATION_REQUIRED"));
                    },
                };
                plan.registration.spec(self.user_sid.as_str())?;
                if plan.registration.store_id != self.manifest.store_id {
                    return Err(Error::Invalid("GUARD_LOGIN_STORE_MISMATCH"));
                }
                let home = plan.home?;
                let root = plan.root?;
                if !text::same(home.as_str(), root.as_str()) {
                    return Err(Error::Invalid("GUARD_LOGIN_STORE_MISMATCH"));
                }
                let before: u64 = if at < RETENTION {
                    0
                } else {
                    at - RETENTION
                };
                let mut entries = copy_retained(self.login.entries.as_slice(), before);
                let capacity = self.login_capacity(request, &plan.registration, at);
                let measured = &plan.measured;
                if entries.len() >= ENTRIES || measured.journal.version != capacity.version
                    || measured.journal.store_id != capacity.store_id || !is_same_entries(
                    measured.journal.entries.as_slice(),
                    capacity.entries.as_slice(),
                ) || measured.size > JOURNAL_LIMIT {
                    return Err(Error::Invalid("GUARD_LOGIN_RECORD_LIMIT"));
                }
                entries.push(
                    Entry {
                        create: *request,
                        registration: plan.registration,
                        created_revision: None,
                        removal: None,
                        removed_revision: None,
                        removed_at: None,
                    },
                );
                Ok(entries)
            },
            Action::Remove => match active {
                None => Err(Error::Invalid("GUARD_LOGIN_OWNERSHIP_UNAVAILABLE")),
                Some(place) => {
                    let entry = &self.login.entries[place];
                    let named = match request.expected_creation {
                        Some(id) => id == entry.create.id,
                        None => false,
                    };
                    if !named {
                        return Err(Error::Invalid("GUARD_LOGIN_REGISTRATION_CHANGED"));
                    }
                    if entry.removal.is_some() {
                        return Err(Error::Invalid("GUARD_LOGIN_OPERATION_PENDING"));
                    }
                    let mut changed = copy_entry(entry);
                    changed.removal = Some(*request);
                    let mut entries = copy_entries(self.login.entries.as_slice());
                    entries.set(place, changed);
                    Ok(entries)
                },
            },
        }
    }

    /// Replace the entries of the journal if they may stand in this store.
    fn write_login(&mut self, entries: Vec<Entry>) -> (r: Result<()>)
        ensures
            r == login_validity(with_entries(old(self)@, entries@)),
            final(self)@ == (if r is Ok {
                with_entries(old(self)@, entries@)
            } else {
                old(self)@
            }),
    {
        let journal = LoginJournal {
            version: self.login.version,
            store_id: self.login.store_id,
            entries,
        };
        validate(
            &journal,
            self.manifest.store_id,
            self.manifest.revision,
            self.user_sid.as_str(),
        )?;
        self.login = journal;
        Ok(())
    }

    /// Take on a request, or tell what it came to. The final status of a repeated request is told without
    /// touching anything. `lease` is what taking the lock around the scheduler came to.
    pub fn begin_login(
        &mut self,
        request: &Request,
        plan: Option<LoginPlan>,
        lease: Result<()>,
        at: u64,
    ) -> (r: Result<Preparation>)
        ensures
            (final(self)@, r) == begin_outcome(old(self)@, *request, plan, lease, at),
    {
        valid_request(request)?;
        match self.find_login_request(request.id)? {
            Some(place) => {
                let entry = &self.login.entries[place];
                if entry.request(request.id) != Some(*request) {
                    return Err(Error::Invalid("REQUEST_ID_CONFLICT"));
                }
                let status = entry.status(request.id);
                if !matches!(status, Status::Pending { .. }) {
                    return Ok(Preparation::Complete(status));
                }
            },
            None => {},
        }
        lease?;
        self.recover_config_requests(at)?;
        match self.find_login_request(request.id)? {
            Some(place) => {
                if self.login.entries[place].request(request.id) != Some(*request) {
                    return Err(Error::Invalid("REQUEST_ID_CONFLICT"));
                }
                return self.login_preparation(request.id);
            },
            None => {},
        }
        self.ensure_request_id_unused_elsewhere(request.id, Journal::Login)?;
        self.ensure_core_update_idle()?;
        if self.manifest.revision != request.expected_revision {
            return Err(Error::Invalid("STALE_MANIFEST_REVISION"));
        }
        let entries = self.record_login(request, plan, at)?;
        self.write_login(entries)?;
        self.login_preparation(request.id)
    }

    /// Take up a recorded request again.
    pub fn resume_login(&mut self, id: Uuid, lease: Result<()>, at: u64) -> (r: Result<Preparation>)
        ensures
            login_resumes(old(self)@, final(self)@, id, lease, at, r),
    {
        if id.is_nil() {
            return Err(Error::Invalid("INVALID_REQUEST_ID"));
        }
        match self.find_login_request(id)? {
            None => {
                return Err(Error::Invalid("GUARD_LOGIN_REQUEST_NOT_FOUND"));
            },
            Some(place) => {
                let status = self.login.entries[place].status(id);
                if !matches!(status, Status::Pending { .. }) {
                    return Ok(Preparation::Complete(status));
                }
            },
        }
        lease?;
        self.recover_config_requests(at)?;
        self.check_login()?;
        self.login_preparation(id)
    }

    fn check_completable(&self, job: &Job) -> (r: Result<Option<Status>>)
        ensures
            r == completable(self@, *job),
    {
        self.ensure_core_update_idle()?;
        match self.find_login_request(job.request.id)? {
            None => Err(Error::Invalid("GUARD_LOGIN_REQUEST_NOT_FOUND")),
            Some(at) => {
                let entry = &self.login.entries[at];
                if entry.request(job.request.id) != Some(job.request) || !entry.registration.same(
                    &job.registration,
                ) {
                    return Err(Error::Invalid("REQUEST_ID_CONFLICT"));
                }
                let status = entry.status(job.request.id);
                if !matches!(status, Status::Pending { .. }) {
                    return Ok(Some(status));
                }
                match entry.removal {
                    Some(removal) => {
                        if removal.id != job.request.id {
                            return Err(Error::Invalid("GUARD_LOGIN_REMOVAL_PENDING"));
                        }
                    },
                    None => {},
                }
                entry.registration.metadata(self.user_sid.as_str())?;
                match &self.manifest.login_task {
                    Some(task) => {
                        if !entry.registration.matches_metadata(task, self.user_sid.as_str())? {
                            return Err(Error::Invalid("GUARD_LOGIN_METADATA_CONFLICT"));
                        }
                    },
                    None => {},
                }
                Ok(None)
            },
        }
    }

    /// Record a completion: first the configuration, if the login task is not yet recorded there as it
    /// should be, then the journal. `written` is what writing the changed configuration came to.
    pub fn complete_login(&mut self, completion: Completion, written: Result<Encoding>, at: u64) -> (r:
        Result<Status>)
        requires
            recovered(old(self)@, at).0.manifest.revision < u64::MAX,
        ensures
            ({
                let (store, recovery) = recovered(old(self)@, at);
                let job = completion.work();
                let next = final(self)@.manifest;
                let changing = changes(store, job) && completable(store, job) == Ok::<
                    Option<Status>,
                    Error,
                >(None);
                if recovery is Err {
                    r == Err::<Status, Error>(recovery->Err_0) && final(self)@ == store
                } else if changing && written is Err {
                    r == Err::<Status, Error>(written->Err_0) && final(self)@ == store
                } else {
                    &&& (final(self)@, r) == completed(store, job, next, at)
                    &&& changing ==> next.encoded == written->Ok_0.encoded && next.rest
                        == written->Ok_0.rest && follows(
                        store.manifest,
                        next,
                        job.request.action == Action::Create,
                        job.registration@,
                        store.user_sid,
                    )
                }
            }),
    {
        self.recover_config_requests(at)?;
        let job = completion.job;
        match self.check_completable(&job)? {
            Some(status) => {
                return Ok(status);
            },
            None => {},
        }
        let ghost store = self@;
        let create = matches!(job.request.action, Action::Create);
        let present = self.manifest.login_task.is_some();
        if create != present {
            let encoding = match written {
                Ok(encoding) => encoding,
                Err(error) => {
                    return Err(error);
                },
            };
            let task = if create {
                Some(job.registration.metadata(self.user_sid.as_str())?)
            } else {
                None
            };
            self.manifest = Arc::new(self.manifest.with_login_task(task, encoding));
        }
        let ghost mid = self@;
        proof {
            assert(mid == committed(store, job, mid.manifest));
        }
        let revision: u64 = self.manifest.revision;
        match find_request(self.login.entries.as_slice(), job.request.id) {
            None => {
                proof {
                    assert(false);
                }
                Err(Error::Invalid("GUARD_LOGIN_REQUEST_NOT_FOUND"))
            },
            Some(place) => {
                let mut entry = copy_entry(&self.login.entries[place]);
                if create {
                    entry.created_revision = Some(revision);
                } else {
                    entry.removed_revision = Some(revision);
                    entry.removed_at = Some(at);
                }
                let status = entry.status(job.request.id);
                let mut entries = copy_entries(self.login.entries.as_slice());
                entries.set(place, entry);
                self.write_login(entries)?;
                Ok(status)
            },
        }
    }
}

/// A completion that was interrupted after the configuration changed, and before the journal recorded it,
/// is completed to the same end as one that was not interrupted.
pub proof fn interrupted_completion_recovers(store: StoreView, job: Job, next: Manifest, at: u64)
    requires
        completable(store, job) == Ok::<Option<Status>, Error>(None),
        changes(store, job),
        follows(
            store.manifest,
            next,
            job.request.action == Action::Create,
            job.registration@,
            store.user_sid,
        ),
    ensures
        completed(committed(store, job, next), job, next, at) == completed(store, job, next, at),
{
    let middle = committed(store, job, next);
    crate::core_update::same_generations(store, middle);
    assert(idle(middle) == idle(store));
    later_revision_keeps_entries(
        store.login.entries,
        0,
        store.manifest.store_id,
        store.manifest.revision,
        next.revision,
        store.user_sid,
    );
    assert(login_validity(middle) is Ok);
    assert(completable(middle, job) == Ok::<Option<Status>, Error>(None));
}

proof fn later_revision_keeps_entries(
    entries: Seq<Entry>,
    i: int,
    store: Uuid,
    current: u64,
    later: u64,
    sid: Seq<char>,
)
    requires
        0 <= i <= entries.len(),
        current <= later,
        entries_verdict(entries, i, store, current, sid) is Ok,
    ensures
        entries_verdict(entries, i, store, later, sid) is Ok,
    decreases entries.len() - i,
{
    if i < entries.len() {
        assert(entry_verdict(entries, i, store, current, sid) is Ok);
        assert(creation_sound(entries, i, store, later));
        assert(removal_sound(entries, i, later));
        later_revision_keeps_entries(entries, i + 1, store, current, later, sid);
    }
}

/// Requests of a usable journal have identifiers of their own: no two entries share one.
pub proof fn request_ids_are_unique(
    journal: LoginView,
    store: Uuid,
    current: u64,
    sid: Seq<char>,
    i: int,
    j: int,
    id: Uuid,
)
    requires
        journal_validity(journal, store, current, sid) is Ok,
        0 <= i < j < journal.entries.len(),
    ensures
        !(entry_request(journal.entries[i], id) is Some && entry_request(journal.entries[j], id)
            is Some),
{
    entry_valid(journal.entries, 0, j, store, current, sid);
    let e = journal.entries[j];
    if entry_request(e, id) is Some {
        if e.create.id == id {
            assert(unused_before(journal.entries, j, id));
        } else {
            assert(e.removal->0.id == id);
            assert(unused_before(journal.entries, j, id));
        }
        assert(entry_request(journal.entries[i], id) is None);
    }
}

proof fn entry_valid(entries: Seq<Entry>, from: int, i: int, store: Uuid, current: u64, sid: Seq<char>)
    requires
        0 <= from <= i < entries.len(),
        entries_verdict(entries, from, store, current, sid) is Ok,
    ensures
        entry_verdict(entries, i, store, current, sid) is Ok,
    decreases i - from,
{
    if from < i {
        entry_valid(entries, from + 1, i, store, current, sid);
    }
}

/// A creation that was cancelled stays cancelled: once an entry is removed, nothing that is recorded of it
/// makes its creation pending or created again.
pub proof fn cancelled_creation_stays_cancelled(entry: Entry, action: Action, revision: u64, at: u64)
    requires
        entry_status(entry, entry.create.id) == Status::Cancelled,
        action == Action::Remove,
    ensures
        entry_status(completed_entry(entry, action, revision, at), entry.create.id)
            == Status::Cancelled,
{
}

/// A number that takes no more room than another: the same, or the other is the longest there is.
pub open spec fn number_within(number: Option<u64>, full: Option<u64>) -> bool {
    number == full || full == Some(u64::MAX)
}

/// An entry that takes no more room than another: what it holds is the same, or stands where the other holds a
/// longest number, or is a removal of the same creation where the other holds one with a longest revision.
pub open spec fn entry_within(entry: Entry, full: Entry) -> bool {
    entry.create == full.create && entry.registration@ == full.registration@ && number_within(
        entry.created_revision,
        full.created_revision,
    ) && number_within(entry.removed_revision, full.removed_revision) && number_within(
        entry.removed_at,
        full.removed_at,
    ) && (entry.removal == full.removal || (full.removal matches Some(removal) && removal.action
        == Action::Remove && removal.expected_revision == u64::MAX && (entry.removal matches Some(own)
        ==> own.action == removal.action && own.expected_creation == removal.expected_creation)))
}

/// Entries that take no more room than those that were measured, now and however they are completed and removed.
pub open spec fn within_measure(entries: Seq<Entry>, full: Seq<Entry>) -> bool {
    entries.len() == full.len() && forall|i: int|
        0 <= i < entries.len() ==> entry_within(#[trigger] entries[i], full[i]) && (
        entries[i].removed_revision is None ==> same_entry(full[i], fullest(entries[i])))
}

proof fn retained_members(entries: Seq<Entry>, cutoff: u64, i: int)
    requires
        0 <= i < retained(entries, cutoff).len(),
    ensures
        exists|k: int| 0 <= k < entries.len() && #[trigger] entries[k] == retained(entries, cutoff)[i],
    decreases entries.len(),
{
    let front = retained(entries.drop_last(), cutoff);
    if i < front.len() {
        retained_members(entries.drop_last(), cutoff, i);
        let k = choose|k: int|
            0 <= k < entries.drop_last().len() && #[trigger] entries.drop_last()[k] == front[i];
        assert(entries[k] == front[i]);
    } else {
        assert(entries[entries.len() - 1] == entries.last());
    }
}

/// A creation is recorded only with room for all that can follow it: the journal is within the measure that was
/// taken, whose size is within the limit.
pub proof fn creations_are_recorded_with_room(store: StoreView, request: Request, plan: LoginPlan, at: u64)
    requires
        request.action == Action::Create,
        recorded(store, request, Some(plan), at) is Ok,
    ensures
        within_measure(
            recorded(store, request, Some(plan), at)->Ok_0,
            plan.measured.journal.entries@,
        ),
        plan.measured.size <= JOURNAL_LIMIT,
{
    let kept = retained(store.login.entries, cutoff(at));
    let entries = recorded(store, request, Some(plan), at)->Ok_0;
    let full = plan.measured.journal.entries@;
    assert(first_where(store.login.entries, is_active()) is None);
    first_where_found(store.login.entries, is_active());
    assert forall|i: int| 0 <= i < entries.len() implies entry_within(#[trigger] entries[i], full[i]) && (
    entries[i].removed_revision is None ==> same_entry(full[i], fullest(entries[i]))) by {
        assert(same_entry(full[i], capacity(entries)[i]));
        if i < kept.len() {
            retained_members(store.login.entries, cutoff(at), i);
            let k = choose|k: int|
                0 <= k < store.login.entries.len() && #[trigger] store.login.entries[k] == kept[i];
            assert(!is_active()(store.login.entries[k]));
        }
    }
}

/// Recording a removal and completing either request keep the journal within the measure that was taken for the
/// creation, so that neither can fail for want of room.
pub proof fn removals_and_completions_have_room(
    store: StoreView,
    request: Request,
    plan: Option<LoginPlan>,
    job: Job,
    next: Manifest,
    at: u64,
    full: Seq<Entry>,
)
    requires
        within_measure(store.login.entries, full),
        request.action == Action::Remove,
    ensures
        recorded(store, request, plan, at) matches Ok(entries) ==> within_measure(entries, full),
        within_measure(completed(store, job, next, at).0.login.entries, full),
{
    let entries = store.login.entries;
    first_where_found(entries, is_active());
    first_where_found(entries, holds_request(job.request.id));
    match first_where(entries, is_active()) {
        Some(place) => {
            assert(entry_within(entries[place], full[place]));
            assert(same_entry(full[place], fullest(entries[place])));
        },
        None => {},
    }
    match first_where(entries, holds_request(job.request.id)) {
        Some(place) => {
            assert(entry_within(entries[place], full[place]));
            assert(committed(store, job, next).login == store.login);
        },
        None => {},
    }
}

/// What resuming a request for the login entry does and answers.
pub open spec fn login_resumes(
    before: StoreView,
    after: StoreView,
    id: Uuid,
    lease: Result<()>,
    at: u64,
    r: Result<Preparation>,
) -> bool {
    if id.bits == 0 {
        r == invalid::<Preparation>("INVALID_REQUEST_ID") && after == before
    } else if login_validity(before) is Err {
        r == Err::<Preparation, Error>(login_validity(before)->Err_0) && after
            == before
    } else {
        match first_where(before.login.entries, holds_request(id)) {
            None => r == invalid::<Preparation>("GUARD_LOGIN_REQUEST_NOT_FOUND")
                && after == before,
            Some(place) => {
                let status = entry_status(before.login.entries[place], id);
                if !(status is Pending) {
                    r == Ok::<Preparation, Error>(Preparation::Complete(status))
                        && after == before
                } else if lease is Err {
                    r == Err::<Preparation, Error>(lease->Err_0) && after
                        == before
                } else {
                    let (store, recovery) = recovered(before, at);
                    after == store && (if recovery is Err {
                        r == Err::<Preparation, Error>(recovery->Err_0)
                    } else if login_validity(store) is Err {
                        r == Err::<Preparation, Error>(login_validity(store)->Err_0)
                    } else {
                        r == preparation(store, id)
                    })
                }
            },
        }
    }
}

/// What is told of the login entry.
pub open spec fn login_told(store: StoreView, r: Result<Option<(Request, Status, Registration)>>) -> bool {
    r == (if login_validity(store) is Err {
        Err(login_validity(store)->Err_0)
    } else {
        match first_where(store.login.entries, is_active()) {
            None => Ok(None),
            Some(at) => {
                let entry = store.login.entries[at];
                let request = match entry.removal {
                    Some(removal) => removal,
                    None => entry.create,
                };
                Ok(Some((request, entry_status(entry, request.id), entry.registration)))
            },
        }
    })
}

/// What is told of a request for the login entry.
pub open spec fn login_status_told(store: StoreView, id: Uuid, r: Result<Option<Status>>) -> bool {
    r == (if id.bits == 0 {
        invalid("INVALID_REQUEST_ID")
    } else if login_validity(store) is Err {
        Err(login_validity(store)->Err_0)
    } else {
        match first_where(store.login.entries, holds_request(id)) {
            None => Ok(None),
            Some(at) => Ok(Some(entry_status(store.login.entries[at], id))),
        }
    })
}

} // verus!
