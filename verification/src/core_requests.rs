//! Request identity is durable before the core is touched. Pending requests are never replayed
//! automatically: an interrupted launch may already have started a process.
use vstd::prelude::*;
use vstd::string::*;
use crate::config_transaction::request_file_id;
use crate::digest::{digest, sha256};
use crate::error::{Error, Result, invalid};
use crate::ids::Uuid;
use crate::model::{ProcessIdentity, ProcessView, ascending, contains_id, copy_ids, recordable, sorted};
use crate::seqs::{first_where, first_where_found, first_where_is, first_where_none};
use crate::store::{Journal, Store, StoreView};
use crate::text;

verus! {

/// How long the receipt of a completed request is kept, in seconds: seven days.
pub const RETENTION: u64 = 604800;

/// What a core update will do to profiles and instances.
#[derive(Debug)]
pub struct UpdateImpact {
    pub plan_id: Uuid,
    pub manifest_revision: u64,
    pub previous_generation: Uuid,
    pub changed_profile: Uuid,
    pub added_profiles: Vec<Uuid>,
    pub removed_profiles: Vec<Uuid>,
    pub affected_profiles: Vec<Uuid>,
    pub bound_instances: Vec<Uuid>,
}

/// The contents of an impact.
pub struct ImpactView {
    pub plan_id: Uuid,
    pub manifest_revision: u64,
    pub previous_generation: Uuid,
    pub changed_profile: Uuid,
    pub added_profiles: Seq<Uuid>,
    pub removed_profiles: Seq<Uuid>,
    pub affected_profiles: Seq<Uuid>,
    pub bound_instances: Seq<Uuid>,
}

impl View for UpdateImpact {
    type V = ImpactView;

    open spec fn view(&self) -> ImpactView {
        ImpactView {
            plan_id: self.plan_id,
            manifest_revision: self.manifest_revision,
            previous_generation: self.previous_generation,
            changed_profile: self.changed_profile,
            added_profiles: self.added_profiles@,
            removed_profiles: self.removed_profiles@,
            affected_profiles: self.affected_profiles@,
            bound_instances: self.bound_instances@,
        }
    }
}

impl UpdateImpact {
    /// An impact with the same contents.
    pub fn copy(&self) -> (r: UpdateImpact)
        ensures
            r@ == self@,
    {
        UpdateImpact {
            plan_id: self.plan_id,
            manifest_revision: self.manifest_revision,
            previous_generation: self.previous_generation,
            changed_profile: self.changed_profile,
            added_profiles: copy_ids(self.added_profiles.as_slice()),
            removed_profiles: copy_ids(self.removed_profiles.as_slice()),
            affected_profiles: copy_ids(self.affected_profiles.as_slice()),
            bound_instances: copy_ids(self.bound_instances.as_slice()),
        }
    }
}

/// A core release: its text, and whether that text names a release.
#[derive(Debug)]
pub struct Version {
    pub text: String,
    pub valid: bool,
}

/// How a core request ended.
#[derive(Debug)]
#[allow(inconsistent_fields)]
pub enum CoreOutcome {
    CancelRequested { request_id: Uuid },
    Installed { version: Version },
    Ready { generation: Uuid, process: ProcessIdentity },
    Stopped,
    Prepared { impact: UpdateImpact },
    Reconfigured { generation: Uuid, process: ProcessIdentity, revision: u64 },
    ProfileRemoved { profile_id: Uuid, revision: u64 },
    Restored { core_down: bool },
    Reconciled { generation: Uuid, process: Option<ProcessIdentity> },
    Failed { code: String },
    Indeterminate { code: String },
}

/// The contents of an outcome.
#[allow(inconsistent_fields)]
pub enum OutcomeView {
    CancelRequested { request_id: Uuid },
    Installed { version: Seq<char>, valid: bool },
    Ready { generation: Uuid, process: ProcessView },
    Stopped,
    Prepared { impact: ImpactView },
    Reconfigured { generation: Uuid, process: ProcessView, revision: u64 },
    ProfileRemoved { profile_id: Uuid, revision: u64 },
    Restored { core_down: bool },
    Reconciled { generation: Uuid, process: Option<ProcessView> },
    Failed { code: Seq<char> },
    Indeterminate { code: Seq<char> },
}

impl View for CoreOutcome {
    type V = OutcomeView;

    open spec fn view(&self) -> OutcomeView {
        match self {
            CoreOutcome::CancelRequested { request_id } => OutcomeView::CancelRequested {
                request_id: *request_id,
            },
            CoreOutcome::Installed { version } => OutcomeView::Installed {
                version: version.text@,
                valid: version.valid,
            },
            CoreOutcome::Ready { generation, process } => OutcomeView::Ready {
                generation: *generation,
                process: process@,
            },
            CoreOutcome::Stopped => OutcomeView::Stopped,
            CoreOutcome::Prepared { impact } => OutcomeView::Prepared { impact: impact@ },
            CoreOutcome::Reconfigured { generation, process, revision } => {
                OutcomeView::Reconfigured {
                    generation: *generation,
                    process: process@,
                    revision: *revision,
                }
            },
            CoreOutcome::ProfileRemoved { profile_id, revision } => OutcomeView::ProfileRemoved {
                profile_id: *profile_id,
                revision: *revision,
            },
            CoreOutcome::Restored { core_down } => OutcomeView::Restored { core_down: *core_down },
            CoreOutcome::Reconciled { generation, process } => OutcomeView::Reconciled {
                generation: *generation,
                process: match process {
                    Some(p) => Some(p@),
                    None => None,
                },
            },
            CoreOutcome::Failed { code } => OutcomeView::Failed { code: code@ },
            CoreOutcome::Indeterminate { code } => OutcomeView::Indeterminate { code: code@ },
        }
    }
}

impl CoreOutcome {
    /// An outcome with the same contents.
    pub fn copy(&self) -> (r: CoreOutcome)
        ensures
            r@ == self@,
    {
        match self {
            CoreOutcome::CancelRequested { request_id } => CoreOutcome::CancelRequested {
                request_id: *request_id,
            },
            CoreOutcome::Installed { version } => CoreOutcome::Installed {
                version: Version { text: version.text.clone(), valid: version.valid },
            },
            CoreOutcome::Ready { generation, process } => CoreOutcome::Ready {
                generation: *generation,
                process: process.copy(),
            },
            CoreOutcome::Stopped => CoreOutcome::Stopped,
            CoreOutcome::Prepared { impact } => CoreOutcome::Prepared { impact: impact.copy() },
            CoreOutcome::Reconfigured { generation, process, revision } => {
                CoreOutcome::Reconfigured {
                    generation: *generation,
                    process: process.copy(),
                    revision: *revision,
                }
            },
            CoreOutcome::ProfileRemoved { profile_id, revision } => CoreOutcome::ProfileRemoved {
                profile_id: *profile_id,
                revision: *revision,
            },
            CoreOutcome::Restored { core_down } => CoreOutcome::Restored { core_down: *core_down },
            CoreOutcome::Reconciled { generation, process } => CoreOutcome::Reconciled {
                generation: *generation,
                process: match process {
                    Some(p) => Some(p.copy()),
                    None => None,
                },
            },
            CoreOutcome::Failed { code } => CoreOutcome::Failed { code: code.clone() },
            CoreOutcome::Indeterminate { code } => CoreOutcome::Indeterminate {
                code: code.clone(),
            },
        }
    }
}

/// An outcome that may be recorded for `owner`.
pub open spec fn outcome_valid(outcome: OutcomeView, owner: Seq<char>) -> bool {
    match outcome {
        OutcomeView::CancelRequested { request_id } => request_id.bits != 0,
        OutcomeView::Installed { valid, .. } => valid,
        OutcomeView::Ready { generation, process } => generation.bits != 0 && recordable(
            process,
            owner,
        ),
        OutcomeView::Failed { code } => text::code_text(code),
        OutcomeView::Indeterminate { code } => text::code_text(code),
        _ => true,
    }
}

/// Check an outcome that is recorded for `owner`.
pub fn validate_outcome(outcome: &CoreOutcome, owner: &str) -> (r: Result<()>)
    ensures
        r == (if outcome_valid(outcome@, owner@) {
            Ok(())
        } else {
            invalid::<()>("INVALID_CORE_REQUEST_OUTCOME")
        }),
{
    let valid = match outcome {
        CoreOutcome::CancelRequested { request_id } => !request_id.is_nil(),
        CoreOutcome::Installed { version } => version.valid,
        CoreOutcome::Ready { generation, process } => !generation.is_nil()
            && process.is_recordable(owner),
        CoreOutcome::Failed { code } => text::is_code(code.as_str()),
        CoreOutcome::Indeterminate { code } => text::is_code(code.as_str()),
        _ => true,
    };
    if valid {
        Ok(())
    } else {
        Err(Error::Invalid("INVALID_CORE_REQUEST_OUTCOME"))
    }
}

/// How far a core request has come. `epoch` names the run that took it on.
#[derive(Debug)]
pub enum CoreRequestPhase {
    Pending { epoch: Uuid },
    Complete { outcome: CoreOutcome, completed_at: u64 },
}

/// The contents of a phase.
pub enum PhaseView {
    Pending { epoch: Uuid },
    Complete { outcome: OutcomeView, completed_at: u64 },
}

impl View for CoreRequestPhase {
    type V = PhaseView;

    open spec fn view(&self) -> PhaseView {
        match self {
            CoreRequestPhase::Pending { epoch } => PhaseView::Pending { epoch: *epoch },
            CoreRequestPhase::Complete { outcome, completed_at } => PhaseView::Complete {
                outcome: outcome@,
                completed_at: *completed_at,
            },
        }
    }
}

impl CoreRequestPhase {
    /// A phase with the same contents.
    pub fn copy(&self) -> (r: CoreRequestPhase)
        ensures
            r@ == self@,
    {
        match self {
            CoreRequestPhase::Pending { epoch } => CoreRequestPhase::Pending { epoch: *epoch },
            CoreRequestPhase::Complete { outcome, completed_at } => CoreRequestPhase::Complete {
                outcome: outcome.copy(),
                completed_at: *completed_at,
            },
        }
    }
}

/// The record of a core request. `file` is the identifier that names its file.
#[derive(Debug)]
pub struct CoreRequest {
    pub file: Uuid,
    pub schema_version: u32,
    pub store_id: Uuid,
    pub request_id: Uuid,
    pub digest: Vec<u8>,
    pub accepted_at: u64,
    pub phase: CoreRequestPhase,
}

/// The contents of a request's record.
pub struct RequestView {
    pub file: Uuid,
    pub schema_version: u32,
    pub store_id: Uuid,
    pub request_id: Uuid,
    pub digest: Seq<u8>,
    pub accepted_at: u64,
    pub phase: PhaseView,
}

impl View for CoreRequest {
    type V = RequestView;

    open spec fn view(&self) -> RequestView {
        RequestView {
            file: self.file,
            schema_version: self.schema_version,
            store_id: self.store_id,
            request_id: self.request_id,
            digest: self.digest@,
            accepted_at: self.accepted_at,
            phase: self.phase@,
        }
    }
}

/// Why a request's record may not be used.
pub open spec fn request_validity(record: RequestView, store_id: Uuid, owner: Seq<char>) -> Result<
    (),
> {
    if record.schema_version != 1 || record.store_id != store_id || record.request_id
        != record.file || record.file.bits == 0 || record.accepted_at == 0 {
        invalid("INVALID_CORE_REQUEST_RECORD")
    } else {
        match record.phase {
            PhaseView::Pending { epoch } => if epoch.bits == 0 {
                invalid("INVALID_CORE_REQUEST_RECORD")
            } else {
                Ok(())
            },
            PhaseView::Complete { outcome, completed_at } => if completed_at
                < record.accepted_at {
                invalid("INVALID_CORE_REQUEST_RECORD")
            } else if !outcome_valid(outcome, owner) {
                invalid("INVALID_CORE_REQUEST_OUTCOME")
            } else {
                Ok(())
            },
        }
    }
}

pub(crate) fn validate_request(record: &CoreRequest, store_id: Uuid, owner: &str) -> (r: Result<()>)
    ensures
        r == request_validity(record@, store_id, owner@),
{
    if record.schema_version != 1 || record.store_id != store_id || record.request_id
        != record.file || record.file.is_nil() || record.accepted_at == 0 {
        return Err(Error::Invalid("INVALID_CORE_REQUEST_RECORD"));
    }
    match &record.phase {
        CoreRequestPhase::Pending { epoch } => {
            if epoch.is_nil() {
                return Err(Error::Invalid("INVALID_CORE_REQUEST_RECORD"));
            }
            Ok(())
        },
        CoreRequestPhase::Complete { outcome, completed_at } => {
            if *completed_at < record.accepted_at {
                return Err(Error::Invalid("INVALID_CORE_REQUEST_RECORD"));
            }
            validate_outcome(outcome, owner)
        },
    }
}

/// A request whose effect on the core is not known to be settled.
pub open spec fn unresolved(phase: PhaseView) -> bool {
    match phase {
        PhaseView::Pending { .. } => true,
        PhaseView::Complete { outcome, .. } => outcome is Indeterminate,
    }
}

pub(crate) fn is_unresolved(phase: &CoreRequestPhase) -> (r: bool)
    ensures
        r == unresolved(phase@),
{
    match phase {
        CoreRequestPhase::Pending { .. } => true,
        CoreRequestPhase::Complete { outcome, .. } => matches!(
            outcome,
            CoreOutcome::Indeterminate { .. }
        ),
    }
}

/// A settled request whose receipt is older than the retention time.
pub open spec fn expired(phase: PhaseView, at: u64) -> bool {
    !unresolved(phase) && match phase {
        PhaseView::Complete { completed_at, .. } => at >= completed_at && at - completed_at
            > RETENTION,
        PhaseView::Pending { .. } => false,
    }
}

fn is_expired(phase: &CoreRequestPhase, at: u64) -> (r: bool)
    ensures
        r == expired(phase@, at),
{
    if is_unresolved(phase) {
        return false;
    }
    match phase {
        CoreRequestPhase::Complete { completed_at, .. } => at >= *completed_at && at
            - *completed_at > RETENTION,
        CoreRequestPhase::Pending { .. } => false,
    }
}

/// Requests whose record lies in the file named by `id`.
pub open spec fn request_file(id: Uuid) -> spec_fn(CoreRequest) -> bool {
    |record: CoreRequest| record.file == id
}

/// The place of the record of request `id`, or why that record may not be used.
pub open spec fn core_lookup(store: StoreView, id: Uuid) -> Result<Option<int>> {
    match first_where(store.core_requests, request_file(id)) {
        None => Ok(None),
        Some(at) => match request_validity(
            store.core_requests[at]@,
            store.manifest.store_id,
            store.manifest.owner_sid@,
        ) {
            Ok(_) => Ok(Some(at)),
            Err(e) => Err(e),
        },
    }
}

/// The records that stay when expired receipts are removed in order, up to the first record that
/// may not be used. The rest stays untouched.
pub open spec fn pruned(
    records: Seq<CoreRequest>,
    store_id: Uuid,
    owner: Seq<char>,
    at: u64,
) -> (Seq<CoreRequest>, Result<()>)
    decreases records.len(),
{
    if records.len() == 0 {
        (records, Ok(()))
    } else {
        let (kept, so_far) = pruned(records.drop_last(), store_id, owner, at);
        let last = records.last();
        if so_far is Err {
            (kept.push(last), so_far)
        } else {
            match request_validity(last@, store_id, owner) {
                Err(e) => (kept.push(last), Err(e)),
                Ok(_) => if expired(last.phase@, at) {
                    (kept, Ok(()))
                } else {
                    (kept.push(last), Ok(()))
                },
            }
        }
    }
}

/// Pruning keeps every request that is not settled.
pub proof fn pruning_keeps_unresolved(
    records: Seq<CoreRequest>,
    store_id: Uuid,
    owner: Seq<char>,
    at: u64,
    i: int,
)
    requires
        0 <= i < records.len(),
        unresolved(records[i].phase@),
    ensures
        pruned(records, store_id, owner, at).0.contains(records[i]),
    decreases records.len(),
{
    let front = records.drop_last();
    let (kept, so_far) = pruned(front, store_id, owner, at);
    if i < records.len() - 1 {
        pruning_keeps_unresolved(front, store_id, owner, at, i);
        assert(front[i] == records[i]);
        let k = choose|k: int| 0 <= k < kept.len() && kept[k] == records[i];
        assert(kept.push(records.last())[k] == records[i]);
    } else {
        assert(kept.push(records.last())[kept.len() as int] == records[i]);
    }
}

/// Pruning adds nothing.
pub proof fn pruning_adds_nothing(
    records: Seq<CoreRequest>,
    store_id: Uuid,
    owner: Seq<char>,
    at: u64,
    record: CoreRequest,
)
    requires
        pruned(records, store_id, owner, at).0.contains(record),
    ensures
        records.contains(record),
    decreases records.len(),
{
    if records.len() > 0 {
        let front = records.drop_last();
        let (kept, so_far) = pruned(front, store_id, owner, at);
        if kept.contains(record) {
            pruning_adds_nothing(front, store_id, owner, at, record);
            let k = choose|k: int| 0 <= k < front.len() && front[k] == record;
            assert(records[k] == record);
        } else {
            let all = kept.push(records.last());
            let k = choose|k: int| 0 <= k < all.len() && all[k] == record;
            if k < kept.len() {
                assert(kept[k] == record);
            }
            assert(records[records.len() - 1] == record);
        }
    }
}

proof fn pruned_stops(
    records: Seq<CoreRequest>,
    n: int,
    store_id: Uuid,
    owner: Seq<char>,
    at: u64,
)
    requires
        0 <= n <= records.len(),
        pruned(records.take(n), store_id, owner, at).1 is Err,
    ensures
        pruned(records, store_id, owner, at) == (
            pruned(records.take(n), store_id, owner, at).0 + records.skip(n),
            pruned(records.take(n), store_id, owner, at).1,
        ),
    decreases records.len() - n,
{
    let (kept, so_far) = pruned(records.take(n), store_id, owner, at);
    if n == records.len() {
        assert(records.take(n) =~= records);
        assert(kept + records.skip(n) =~= kept);
    } else {
        let longer = records.take(n + 1);
        assert(longer.drop_last() =~= records.take(n));
        assert(longer.last() == records[n]);
        pruned_stops(records, n + 1, store_id, owner, at);
        assert(kept.push(records[n]) + records.skip(n + 1) =~= kept + records.skip(n));
    }
}

/// A core operation that a client asks for.
#[derive(Debug)]
pub enum CoreAction {
    Start { profiles: Vec<Uuid>, required: Uuid },
    Stop,
    RecoverStart { generation: Uuid },
    PrepareRemove { expected_revision: u64, profile_id: Uuid },
    PrepareExpand { expected_revision: u64, profiles: Vec<Uuid>, required: Uuid },
    ApplyUpdate { plan_id: Uuid },
}

/// An action that can be asked for: the profile that it requires is among its profiles.
pub open spec fn action_sound(action: CoreAction) -> bool {
    match action {
        CoreAction::Start { profiles, required } => profiles@.contains(required),
        CoreAction::PrepareExpand { profiles, required, .. } => profiles@.contains(required),
        _ => true,
    }
}

/// The canonical form of an action: its profiles in ascending order, each once.
pub open spec fn normal_form(given: CoreAction, normal: CoreAction) -> bool {
    match (given, normal) {
        (
            CoreAction::Start { profiles: a, required: x },
            CoreAction::Start { profiles: b, required: y },
        ) => x == y && ascending(b@) && a@.to_set() == b@.to_set(),
        (
            CoreAction::PrepareExpand { profiles: a, required: x, expected_revision: m },
            CoreAction::PrepareExpand { profiles: b, required: y, expected_revision: n },
        ) => x == y && m == n && ascending(b@) && a@.to_set() == b@.to_set(),
        (a, b) => a == b && !(a is Start) && !(a is PrepareExpand),
    }
}

impl CoreAction {
    /// Bring the action into its canonical form, so that equal requests have equal encodings.
    pub fn normalize(&mut self) -> (r: Result<()>)
        ensures
            if action_sound(*old(self)) {
                r == Ok::<(), Error>(()) && normal_form(*old(self), *final(self))
            } else {
                r == invalid::<()>("INVALID_CORE_REQUEST") && *final(self) == *old(self)
            },
    {
        let sound = match &*self {
            CoreAction::Start { profiles, required } => contains_id(profiles.as_slice(), *required),
            CoreAction::PrepareExpand { profiles, required, .. } => contains_id(
                profiles.as_slice(),
                *required,
            ),
            _ => true,
        };
        if !sound {
            return Err(Error::Invalid("INVALID_CORE_REQUEST"));
        }
        match self {
            CoreAction::Start { profiles, .. } => {
                let ordered = sorted(profiles.as_slice());
                *profiles = ordered;
            },
            CoreAction::PrepareExpand { profiles, .. } => {
                let ordered = sorted(profiles.as_slice());
                *profiles = ordered;
            },
            _ => {},
        }
        Ok(())
    }
}

/// The record that a new request gets.
pub open spec fn pending_request(
    id: Uuid,
    epoch: Uuid,
    encoded: Seq<u8>,
    store_id: Uuid,
    at: u64,
) -> RequestView {
    RequestView {
        file: id,
        schema_version: 1,
        store_id,
        request_id: id,
        digest: sha256(encoded),
        accepted_at: at,
        phase: PhaseView::Pending { epoch },
    }
}

/// What beginning a request comes to once expired receipts are gone: a conflict, the phase of the
/// request that this one repeats, or `None` when a new record has to be written.
pub open spec fn begin_outcome(store: StoreView, id: Uuid, encoded: Seq<u8>) -> Result<
    Option<PhaseView>,
> {
    match crate::store::unused_elsewhere(store, id, Journal::Core) {
        Err(e) => Err(e),
        Ok(_) => match core_lookup(store, id) {
            Err(e) => Err(e),
            Ok(None) => Ok(None),
            Ok(Some(at)) => if store.core_requests[at].digest@ != sha256(encoded) {
                invalid("REQUEST_ID_CONFLICT")
            } else {
                Ok(Some(store.core_requests[at].phase@))
            },
        },
    }
}

/// The store once expired receipts are gone.
pub open spec fn pruned_store(store: StoreView, at: u64) -> StoreView {
    StoreView {
        core_requests: pruned(
            store.core_requests,
            store.manifest.store_id,
            store.manifest.owner_sid@,
            at,
        ).0,
        ..store
    }
}

/// Whether removing expired receipts met a record that may not be used.
pub open spec fn pruning_result(store: StoreView, at: u64) -> Result<()> {
    pruned(store.core_requests, store.manifest.store_id, store.manifest.owner_sid@, at).1
}

/// The identifiers of the files in a directory of requests. Unfinished temporary files are passed
/// over; any other file whose name is not an identifier with the suffix `.json` is refused.
pub open spec fn file_ids(names: Seq<String>, code: &'static str) -> Result<Seq<Uuid>>
    decreases names.len(),
{
    if names.len() == 0 {
        Ok(Seq::empty())
    } else {
        match file_ids(names.drop_last(), code) {
            Err(e) => Err(e),
            Ok(ids) => match crate::config_transaction::file_rule(names.last()@) {
                crate::config_transaction::FileName::Temporary => Ok(ids),
                crate::config_transaction::FileName::Record(id) => Ok(ids.push(id)),
                crate::config_transaction::FileName::Unknown => invalid(code),
            },
        }
    }
}

proof fn file_ids_stop(names: Seq<String>, n: int, code: &'static str)
    requires
        0 <= n <= names.len(),
        file_ids(names.take(n), code) is Err,
    ensures
        file_ids(names, code) == file_ids(names.take(n), code),
    decreases names.len() - n,
{
    if n == names.len() {
        assert(names.take(n) =~= names);
    } else {
        assert(names.take(n + 1).drop_last() =~= names.take(n));
        file_ids_stop(names, n + 1, code);
    }
}

/// The identifiers of the files in a directory of requests.
pub fn request_file_ids(names: &[String], code: &'static str) -> (r: Result<Vec<Uuid>>)
    ensures
        match r {
            Ok(ids) => file_ids(names@, code) == Ok::<Seq<Uuid>, Error>(ids@),
            Err(e) => file_ids(names@, code) == Err::<Seq<Uuid>, Error>(e),
        },
{
    let mut ids: Vec<Uuid> = Vec::new();
    let mut i: usize = 0;
    proof {
        assert(ids@ =~= Seq::<Uuid>::empty());
    }
    while i < names.len()
        invariant
            i <= names.len(),
            file_ids(names@.take(i as int), code) == Ok::<Seq<Uuid>, Error>(ids@),
        decreases names.len() - i,
    {
        proof {
            let longer = names@.take(i + 1);
            assert(longer.drop_last() =~= names@.take(i as int));
            assert(longer.last() == names@[i as int]);
        }
        match request_file_id(names[i].as_str()) {
            crate::config_transaction::FileName::Temporary => {},
            crate::config_transaction::FileName::Record(id) => {
                ids.push(id);
            },
            crate::config_transaction::FileName::Unknown => {
                proof {
                    file_ids_stop(names@, i + 1, code);
                }
                return Err(Error::Invalid(code));
            },
        }
        i += 1;
    }
    proof {
        assert(names@.take(names@.len() as int) =~= names@);
    }
    Ok(ids)
}

impl Store {
    /// The place of the record of request `id`, once the record is found usable.
    pub(crate) fn find_core_request(&self, id: Uuid) -> (r: Result<Option<usize>>)
        ensures
            match (r, core_lookup(self@, id)) {
                (Ok(Some(at)), Ok(Some(place))) => at == place && at < self.core_requests.len(),
                (Ok(None), Ok(None)) => true,
                (Err(e), Err(f)) => e == f,
                _ => false,
            },
            match r {
                Ok(Some(at)) => self.core_requests@[at as int].file == id,
                _ => true,
            },
    {
        let mut at: usize = 0;
        while at < self.core_requests.len() && self.core_requests[at].file != id
            invariant
                at <= self.core_requests.len(),
                forall|k: int|
                    0 <= k < at ==> !request_file(id)(#[trigger] self.core_requests@[k]),
            decreases self.core_requests.len() - at,
        {
            at += 1;
        }
        if at == self.core_requests.len() {
            proof {
                first_where_none(self.core_requests@, request_file(id));
            }
            return Ok(None);
        }
        proof {
            first_where_is(self.core_requests@, request_file(id), at as int);
        }
        validate_request(
            &self.core_requests[at],
            self.manifest.store_id,
            self.manifest.owner_sid.as_str(),
        )?;
        Ok(Some(at))
    }

    /// Remove the receipts of settled requests that are older than the retention time.
    pub fn prune_core_requests(&mut self, at: u64) -> (r: Result<()>)
        ensures
            final(self)@ == pruned_store(old(self)@, at),
            r == pruning_result(old(self)@, at),
    {
        let ghost all = self.core_requests@;
        let ghost before = self@;
        let ghost mut n: int = 0;
        let mut i: usize = 0;
        let store_id = self.manifest.store_id;
        let owner = self.manifest.owner_sid.clone();
        proof {
            assert(all.take(0) =~= Seq::<CoreRequest>::empty());
            assert(all =~= Seq::<CoreRequest>::empty() + all.skip(0));
        }
        while i < self.core_requests.len()
            invariant
                0 <= n <= all.len(),
                store_id == before.manifest.store_id,
                owner@ == before.manifest.owner_sid@,
                pruned(all.take(n), store_id, owner@, at).1 == Ok::<(), Error>(()),
                self.core_requests@ == pruned(all.take(n), store_id, owner@, at).0 + all.skip(n),
                i == pruned(all.take(n), store_id, owner@, at).0.len(),
                self@ == (StoreView { core_requests: self.core_requests@, ..before }),
                all == before.core_requests,
                before == old(self)@,
            decreases self.core_requests.len() - i,
        {
            let ghost kept = pruned(all.take(n), store_id, owner@, at).0;
            proof {
                assert(self.core_requests@[i as int] == all[n]);
                assert(all.take(n + 1).drop_last() =~= all.take(n));
                assert(all.take(n + 1).last() == all[n]);
            }
            match validate_request(&self.core_requests[i], store_id, owner.as_str()) {
                Err(e) => {
                    proof {
                        pruned_stops(all, n + 1, store_id, owner@, at);
                        assert(kept.push(all[n]) + all.skip(n + 1) =~= kept + all.skip(n));
                    }
                    return Err(e);
                },
                Ok(_) => {},
            }
            if is_expired(&self.core_requests[i].phase, at) {
                self.core_requests.remove(i);
                proof {
                    assert(self.core_requests@ =~= kept + all.skip(n + 1));
                }
            } else {
                proof {
                    assert(kept.push(all[n]) + all.skip(n + 1) =~= kept + all.skip(n));
                }
                i += 1;
            }
            proof {
                n = n + 1;
            }
        }
        proof {
            assert(n == all.len());
            assert(all.take(n) =~= all);
            assert(self.core_requests@ =~= pruned(all, store_id, owner@, at).0);
        }
        Ok(())
    }

    /// Take on a request. `encoded` is the encoding of the action in its canonical form. The result
    /// tells the request's phase and whether a new record was written; a request that repeats a
    /// recorded one gets that one's phase, and a different action under the same identifier is
    /// refused.
    pub fn begin_core_request(
        &mut self,
        id: Uuid,
        epoch: Uuid,
        encoded: &[u8],
        at: u64,
    ) -> (r: Result<(CoreRequestPhase, bool)>)
        ensures
            begins(old(self)@, final(self)@, id, epoch, encoded@, at, r),
    {
        if id.is_nil() || epoch.is_nil() {
            return Err(Error::Invalid("INVALID_REQUEST_ID"));
        }
        self.prune_core_requests(at)?;
        self.ensure_request_id_unused_elsewhere(id, Journal::Core)?;
        let found = digest(encoded);
        match self.find_core_request(id)? {
            Some(place) => {
                let record = &self.core_requests[place];
                if !text::same_bytes(record.digest.as_slice(), found.as_slice()) {
                    return Err(Error::Invalid("REQUEST_ID_CONFLICT"));
                }
                Ok((record.phase.copy(), false))
            },
            None => {
                let record = CoreRequest {
                    file: id,
                    schema_version: 1,
                    store_id: self.manifest.store_id,
                    request_id: id,
                    digest: found,
                    accepted_at: at,
                    phase: CoreRequestPhase::Pending { epoch },
                };
                let ghost records = self.core_requests@;
                self.core_requests.push(record);
                proof {
                    assert(self.core_requests@.drop_last() =~= records);
                }
                Ok((CoreRequestPhase::Pending { epoch }, true))
            },
        }
    }

    /// The phase of a request, if it is recorded.
    pub fn core_request_status(&self, id: Uuid) -> (r: Result<Option<CoreRequestPhase>>)
        ensures
            status_told(self@, id, r),
    {
        if id.is_nil() {
            return Err(Error::Invalid("INVALID_REQUEST_ID"));
        }
        match self.find_core_request(id)? {
            None => Ok(None),
            Some(at) => Ok(Some(self.core_requests[at].phase.copy())),
        }
    }

    /// Record how a request ended. Only the run that took the request on may do so. A clock that
    /// was set back cannot make the end precede the beginning.
    pub fn finish_core_request(
        &mut self,
        id: Uuid,
        epoch: Uuid,
        outcome: CoreOutcome,
        at: u64,
    ) -> (r: Result<()>)
        ensures
            finishes(old(self)@, final(self)@, id, epoch, outcome, at, r),
    {
        match self.find_core_request(id)? {
            None => Err(Error::Invalid("CORE_REQUEST_NOT_FOUND")),
            Some(place) => {
                let owned = match &self.core_requests[place].phase {
                    CoreRequestPhase::Pending { epoch: recorded } => *recorded == epoch,
                    _ => false,
                };
                if !owned {
                    return Err(Error::Invalid("CORE_REQUEST_OWNER_CHANGED"));
                }
                validate_outcome(&outcome, self.manifest.owner_sid.as_str())?;
                let accepted_at: u64 = self.core_requests[place].accepted_at;
                let completed_at: u64 = if at < accepted_at {
                    accepted_at
                } else {
                    at
                };
                let ghost records = self.core_requests@;
                let mut record = self.core_requests.remove(place);
                record.phase = CoreRequestPhase::Complete { outcome, completed_at };
                self.core_requests.insert(place, record);
                proof {
                    assert(self.core_requests@ =~= records.update(place as int, record));
                }
                Ok(())
            },
        }
    }

    /// Whether any recorded request is not settled.
    pub fn has_unresolved_core_requests(&self) -> (r: Result<bool>)
        ensures
            match r {
                Ok(true) => exists|i: int|
                    0 <= i < self@.core_requests.len() && #[trigger] unresolved(
                        self@.core_requests[i].phase@,
                    ) && self.usable_before(i + 1),
                Ok(false) => self.usable_before(self@.core_requests.len() as int) && forall|i: int|
                    0 <= i < self@.core_requests.len() ==> !(#[trigger] unresolved(
                        self@.core_requests[i].phase@,
                    )),
                Err(e) => exists|i: int|
                    0 <= i < self@.core_requests.len() && self.usable_before(i)
                        && #[trigger] request_validity(
                        self@.core_requests[i]@,
                        self@.manifest.store_id,
                        self@.manifest.owner_sid@,
                    ) == Err::<(), Error>(e) && forall|k: int|
                        0 <= k < i ==> !(#[trigger] unresolved(self@.core_requests[k].phase@)),
            },
    {
        let mut i: usize = 0;
        while i < self.core_requests.len()
            invariant
                i <= self.core_requests.len(),
                self.usable_before(i as int),
                forall|k: int|
                    0 <= k < i ==> !(#[trigger] unresolved(self@.core_requests[k].phase@)),
            decreases self.core_requests.len() - i,
        {
            match validate_request(
                &self.core_requests[i],
                self.manifest.store_id,
                self.manifest.owner_sid.as_str(),
            ) {
                Err(e) => {
                    proof {
                        assert(request_validity(
                            self@.core_requests[i as int]@,
                            self@.manifest.store_id,
                            self@.manifest.owner_sid@,
                        ) == Err::<(), Error>(e));
                    }
                    return Err(e);
                },
                Ok(_) => {},
            }
            if is_unresolved(&self.core_requests[i].phase) {
                proof {
                    assert(unresolved(self@.core_requests[i as int].phase@));
                }
                return Ok(true);
            }
            i += 1;
        }
        Ok(false)
    }

    /// Every record before place `n` may be used.
    pub open spec fn usable_before(&self, n: int) -> bool {
        forall|k: int|
            0 <= k < n && k < self@.core_requests.len() ==> (#[trigger] request_validity(
                self@.core_requests[k]@,
                self@.manifest.store_id,
                self@.manifest.owner_sid@,
            )) is Ok
    }
}

/// A request that was just recorded starts nothing when it is repeated: it is told to be pending, and another
/// action under its identifier is refused.
pub proof fn repeated_requests_start_nothing(
    before: StoreView,
    after: StoreView,
    id: Uuid,
    epoch: Uuid,
    encoded: Seq<u8>,
    other: Seq<u8>,
    at: u64,
)
    requires
        id.bits != 0,
        epoch.bits != 0,
        at != 0,
        begin_outcome(before, id, encoded) == Ok::<Option<PhaseView>, Error>(None),
        after == (StoreView { core_requests: after.core_requests, ..before }),
        after.core_requests.len() == before.core_requests.len() + 1,
        after.core_requests.drop_last() == before.core_requests,
        after.core_requests.last()@ == pending_request(
            id,
            epoch,
            encoded,
            before.manifest.store_id,
            at,
        ),
    ensures
        begin_outcome(after, id, encoded) == Ok::<Option<PhaseView>, Error>(
            Some(PhaseView::Pending { epoch }),
        ),
        sha256(other) != sha256(encoded) ==> begin_outcome(after, id, other) == invalid::<
            Option<PhaseView>,
        >("REQUEST_ID_CONFLICT"),
{
    let last = after.core_requests.len() - 1;
    first_where_found(before.core_requests, request_file(id));
    assert forall|k: int| 0 <= k < last implies !request_file(id)(
        #[trigger] after.core_requests[k],
    ) by {
        assert(after.core_requests.drop_last()[k] == before.core_requests[k]);
    }
    assert(after.core_requests[last].file == after.core_requests[last]@.file);
    first_where_is(after.core_requests, request_file(id), last);
}

/// What finishing a request with an outcome does and answers.
pub open spec fn finishes(
    before: StoreView,
    after: StoreView,
    id: Uuid,
    epoch: Uuid,
    outcome: CoreOutcome,
    at: u64,
    r: Result<()>,
) -> bool {
    match core_lookup(before, id) {
        Err(e) => r == Err::<(), Error>(e) && after == before,
        Ok(None) => r == invalid::<()>("CORE_REQUEST_NOT_FOUND") && after
            == before,
        Ok(Some(place)) => {
            let record = before.core_requests[place];
            if record.phase@ != (PhaseView::Pending { epoch }) {
                r == invalid::<()>("CORE_REQUEST_OWNER_CHANGED") && after
                    == before
            } else if !outcome_valid(outcome@, before.manifest.owner_sid@) {
                r == invalid::<()>("INVALID_CORE_REQUEST_OUTCOME") && after
                    == before
            } else {
                r == Ok::<(), Error>(()) && after == (StoreView {
                    core_requests: before.core_requests.update(
                        place,
                        CoreRequest {
                            phase: CoreRequestPhase::Complete {
                                outcome,
                                completed_at: if at < record.accepted_at {
                                    record.accepted_at
                                } else {
                                    at
                                },
                            },
                            ..record
                        },
                    ),
                    ..before
                })
            }
        },
    }
}

/// What taking a request on does and answers.
pub open spec fn begins(
    before: StoreView,
    after: StoreView,
    id: Uuid,
    epoch: Uuid,
    encoded: Seq<u8>,
    at: u64,
    r: Result<(CoreRequestPhase, bool)>,
) -> bool {
    if id.bits == 0 || epoch.bits == 0 {
        r == invalid::<(CoreRequestPhase, bool)>("INVALID_REQUEST_ID") && after
            == before
    } else if pruning_result(before, at) is Err {
        r matches Err(e) && Err::<(), Error>(e) == pruning_result(before, at)
            && after == pruned_store(before, at)
    } else {
        let store = pruned_store(before, at);
        match begin_outcome(store, id, encoded) {
            Err(e) => r == Err::<(CoreRequestPhase, bool), Error>(e) && after
                == store,
            Ok(Some(phase)) => r matches Ok((found, fresh)) && found@ == phase && !fresh
                && after == store,
            Ok(None) => r matches Ok((made, fresh)) && made@ == (PhaseView::Pending {
                epoch,
            }) && fresh && after == (StoreView {
                core_requests: after.core_requests,
                ..store
            }) && after.core_requests.len() == store.core_requests.len() + 1
                && after.core_requests.drop_last() == store.core_requests
                && after.core_requests.last()@ == pending_request(
                id,
                epoch,
                encoded,
                store.manifest.store_id,
                at,
            ),
        }
    }
}

/// What is told of a request.
pub open spec fn status_told(store: StoreView, id: Uuid, r: Result<Option<CoreRequestPhase>>) -> bool {
    if id.bits == 0 {
        r == invalid::<Option<CoreRequestPhase>>("INVALID_REQUEST_ID")
    } else {
        match core_lookup(store, id) {
            Err(e) => r == Err::<Option<CoreRequestPhase>, Error>(e),
            Ok(None) => r == Ok::<Option<CoreRequestPhase>, Error>(None),
            Ok(Some(at)) => r matches Ok(Some(phase)) && phase@
                == store.core_requests[at].phase@,
        }
    }
}

} // verus!
