//! Configuration edits as durable transactions: an accepted edit is recorded as pending before the
//! configuration changes, and completing it twice changes the configuration once.
use std::sync::Arc;
use vstd::prelude::*;
use vstd::string::*;
use crate::core_state::{Compiled, compiled_matches, core_generation_matches, opened, profile_ids, recorded_state, state_generation};
use crate::core_update::idle;
use crate::digest::{digest, sha256};
use crate::error::{Error, Result, invalid};
use crate::ids::{Uuid, uuid_text_injective};
use crate::model::{Manifest, contains_id};
use crate::seqs::{first_where, first_where_found, first_where_is, first_where_none};
use crate::store::{Journal, Secret, SecretView, Store, StoreView, secret_views, secrets_put, unused_elsewhere};
use crate::text;

verus! {

/// How long the receipt of a completed edit is kept, in seconds: seven days.
pub const RETENTION: u64 = 604800;

/// What a file name in a directory of requests stands for.
#[derive(Clone, Copy, Debug, PartialEq, Eq, Structural)]
pub enum FileName {
    Temporary,
    Record(Uuid),
    Unknown,
}

/// A name that begins with `.tmp` is an unfinished write. A record's name is its identifier in the
/// hyphenated form with the suffix `.json`. Nothing else belongs in the directory.
pub open spec fn file_rule(name: Seq<char>) -> FileName {
    if ".tmp"@.is_prefix_of(name) {
        FileName::Temporary
    } else if exists|id: Uuid| name == #[trigger] id.text() + ".json"@ {
        FileName::Record(choose|id: Uuid| name == #[trigger] id.text() + ".json"@)
    } else {
        FileName::Unknown
    }
}

/// What a file name in a directory of requests stands for.
pub fn request_file_id(name: &str) -> (r: FileName)
    ensures
        r == file_rule(name@),
{
    let x = text::chars(name);
    proof {
        reveal_strlit(".tmp");
        reveal_strlit(".json");
    }
    if x.len() >= 4 && x[0] == '.' && x[1] == 't' && x[2] == 'm' && x[3] == 'p' {
        proof {
            assert(".tmp"@ =~= name@.take(4));
            assert(".tmp"@.is_prefix_of(name@));
        }
        return FileName::Temporary;
    }
    proof {
        if ".tmp"@.is_prefix_of(name@) {
            assert(".tmp"@[0] == name@[0] && ".tmp"@[1] == name@[1] && ".tmp"@[2] == name@[2]
                && ".tmp"@[3] == name@[3]);
        }
    }
    if x.len() != 41 {
        proof {
            assert forall|id: Uuid| name@ != #[trigger] id.text() + ".json"@ by {
                assert((id.text() + ".json"@).len() == 41);
            }
        }
        return FileName::Unknown;
    }
    if !(x[36] == '.' && x[37] == 'j' && x[38] == 's' && x[39] == 'o' && x[40] == 'n') {
        proof {
            assert forall|id: Uuid| name@ != #[trigger] id.text() + ".json"@ by {
                let whole = id.text() + ".json"@;
                assert(whole[36] == '.' && whole[37] == 'j' && whole[38] == 's' && whole[39] == 'o'
                    && whole[40] == 'n');
            }
        }
        return FileName::Unknown;
    }
    let mut stem = String::new();
    let mut i: usize = 0;
    while i < 36
        invariant
            i <= 36,
            x.len() == 41,
            x@ == name@,
            stem@ == name@.take(i as int),
        decreases 36 - i,
    {
        stem.push(x[i]);
        i += 1;
        proof {
            assert(name@.take(i as int) =~= name@.take(i - 1).push(name@[i - 1]));
        }
    }
    match Uuid::canonical(stem.as_str()) {
        Some(id) => {
            proof {
                assert(name@ =~= id.text() + ".json"@);
                let found = choose|found: Uuid| name@ == #[trigger] found.text() + ".json"@;
                assert(found.text() =~= name@.take(36));
                uuid_text_injective(found.bits, id.bits);
            }
            FileName::Record(id)
        },
        None => {
            proof {
                assert forall|id: Uuid| name@ != #[trigger] id.text() + ".json"@ by {
                    if name@ == id.text() + ".json"@ {
                        assert(id.text() =~= name@.take(36));
                    }
                }
            }
            FileName::Unknown
        },
    }
}

/// What an applied edit left behind: the entity it concerned and the revision it made.
#[derive(Clone, Copy, Debug, PartialEq, Eq, Structural)]
pub struct ConfigReceipt {
    pub entity_id: Uuid,
    pub revision: u64,
}

/// How an edit ended.
#[derive(Debug)]
pub enum ConfigOutcome {
    Applied { receipt: ConfigReceipt },
    Rejected { code: String, current_revision: u64 },
}

impl ConfigOutcome {
    /// An equal outcome.
    pub fn copy(&self) -> (r: ConfigOutcome)
        ensures
            r == *self,
    {
        match self {
            ConfigOutcome::Applied { receipt } => ConfigOutcome::Applied { receipt: *receipt },
            ConfigOutcome::Rejected { code, current_revision } => ConfigOutcome::Rejected {
                code: code.clone(),
                current_revision: *current_revision,
            },
        }
    }
}

/// How far an edit has come, as told to the client that asked for it.
#[derive(Debug)]
pub enum ConfigRequestStatus {
    Pending,
    Complete { outcome: ConfigOutcome },
}

/// How far an edit has come. `before` and `after` are the digests of the configuration that the
/// edit started from and of `target`, the configuration that it makes.
#[derive(Debug)]
pub enum ConfigPhase {
    Pending { before: Vec<u8>, after: Vec<u8>, target: Arc<Manifest>, receipt: ConfigReceipt },
    Complete { outcome: ConfigOutcome, completed_at: u64 },
}

/// The record of an edit. `file` is the identifier that names its file.
#[derive(Debug)]
pub struct ConfigRecord {
    pub file: Uuid,
    pub format: String,
    pub schema_version: u32,
    pub store_id: Uuid,
    pub request_id: Uuid,
    pub request_digest: Vec<u8>,
    pub expected_revision: u64,
    pub accepted_at: u64,
    pub phase: ConfigPhase,
}

/// What an edit does, as far as the journal's rules depend on it.
#[derive(Debug)]
pub enum ConfigAction {
    CreateManualProfile { password: Option<String> },
    UpdateManualProfile { profile_id: Uuid, password: Option<String> },
    EditSubscriptionProfile { profile_id: Uuid, refresh: bool },
    RemoveProfile { profile_id: Uuid },
    EditInstance { secrets: Vec<Secret> },
    Other,
}

/// An edit that a client asks for. `encoded` is its complete encoding.
#[derive(Debug)]
pub struct ConfigRequest {
    pub request_id: Uuid,
    pub expected_revision: u64,
    pub action: ConfigAction,
    pub encoded: Vec<u8>,
}

/// What applying an edit to the current configuration gives: the configuration that it makes and
/// the entity it concerns, or the code with which it is refused.
#[derive(Debug)]
pub enum Applied {
    Accepted { target: Arc<Manifest>, entity_id: Uuid },
    Refused(&'static str),
}

/// A rejection that may be recorded while the configuration is at `revision`.
pub open spec fn rejection_valid(code: Seq<char>, current_revision: u64, revision: u64) -> bool {
    text::code_text(code) && current_revision != 0 && current_revision <= revision
}

/// Why the record of an edit may not be used.
pub open spec fn record_validity(record: ConfigRecord, manifest: Manifest) -> Result<()> {
    if record.format@ != "app-proxy-rust-config-request"@ || record.schema_version != 1
        || record.store_id != manifest.store_id || record.request_id != record.file
        || record.file.bits == 0 || record.accepted_at == 0 {
        invalid("INVALID_CONFIG_REQUEST_RECORD")
    } else {
        match record.phase {
            ConfigPhase::Pending { after, target, receipt, .. } => match target.validity() {
                Err(e) => Err(e),
                Ok(_) => if sha256(target.encoded@) != after@ || receipt.entity_id.bits == 0
                    || target.revision != receipt.revision || record.expected_revision + 1
                    != receipt.revision {
                    invalid("INVALID_CONFIG_REQUEST_RECORD")
                } else {
                    Ok(())
                },
            },
            ConfigPhase::Complete { outcome, completed_at } => {
                let sound = completed_at != 0 && match outcome {
                    ConfigOutcome::Applied { receipt } => receipt.entity_id.bits != 0
                        && receipt.revision <= manifest.revision && record.expected_revision + 1
                        == receipt.revision,
                    ConfigOutcome::Rejected { code, current_revision } => rejection_valid(
                        code@,
                        current_revision,
                        manifest.revision,
                    ),
                };
                if sound {
                    Ok(())
                } else {
                    invalid("INVALID_CONFIG_REQUEST_RECORD")
                }
            },
        }
    }
}

fn follows(expected: u64, revision: u64) -> (r: bool)
    ensures
        r == (expected + 1 == revision),
{
    expected < u64::MAX && expected + 1 == revision
}

/// Check the record of an edit against the current configuration.
pub fn validate_record(record: &ConfigRecord, manifest: &Manifest) -> (r: Result<()>)
    ensures
        r == record_validity(*record, *manifest),
{
    if !text::same(record.format.as_str(), "app-proxy-rust-config-request")
        || record.schema_version != 1 || record.store_id != manifest.store_id || record.request_id
        != record.file || record.file.is_nil() || record.accepted_at == 0 {
        return Err(Error::Invalid("INVALID_CONFIG_REQUEST_RECORD"));
    }
    let sound = match &record.phase {
        ConfigPhase::Pending { after, target, receipt, .. } => {
            target.validate()?;
            text::same_bytes(digest(target.encoded.as_slice()).as_slice(), after.as_slice())
                && !receipt.entity_id.is_nil() && target.revision == receipt.revision && follows(
                record.expected_revision,
                receipt.revision,
            )
        },
        ConfigPhase::Complete { outcome, completed_at } => *completed_at != 0 && match outcome {
            ConfigOutcome::Applied { receipt } => !receipt.entity_id.is_nil() && receipt.revision
                <= manifest.revision && follows(record.expected_revision, receipt.revision),
            ConfigOutcome::Rejected { code, current_revision } => text::is_code(code.as_str())
                && *current_revision <= manifest.revision && *current_revision != 0,
        },
    };
    if sound {
        Ok(())
    } else {
        Err(Error::Invalid("INVALID_CONFIG_REQUEST_RECORD"))
    }
}

/// Edits whose record lies in the file named by `id`.
pub open spec fn config_file(id: Uuid) -> spec_fn(ConfigRecord) -> bool {
    |record: ConfigRecord| record.file == id
}

/// The place of the record of edit `id`, or why that record may not be used.
pub open spec fn config_lookup(store: StoreView, id: Uuid) -> Result<Option<int>> {
    match first_where(store.config_requests, config_file(id)) {
        None => Ok(None),
        Some(at) => match record_validity(store.config_requests[at], store.manifest) {
            Ok(_) => Ok(Some(at)),
            Err(e) => Err(e),
        },
    }
}

/// A completed edit whose receipt is older than the retention time.
pub open spec fn outdated(phase: ConfigPhase, at: u64) -> bool {
    match phase {
        ConfigPhase::Complete { completed_at, .. } => at >= completed_at && at - completed_at
            > RETENTION,
        ConfigPhase::Pending { .. } => false,
    }
}

/// What a sweep over the records leaves: the records that stay, the place of the pending one among
/// them, and why the sweep stopped if it did.
pub struct Swept {
    pub kept: Seq<ConfigRecord>,
    pub pending: Option<int>,
    pub result: Result<()>,
}

/// Sweep the records in order: outdated receipts are removed, a second pending record or a record
/// that may not be used stops the sweep, and what follows stays untouched.
pub open spec fn swept(records: Seq<ConfigRecord>, manifest: Manifest, at: u64) -> Swept
    decreases records.len(),
{
    if records.len() == 0 {
        Swept { kept: records, pending: None, result: Ok(()) }
    } else {
        let s = swept(records.drop_last(), manifest, at);
        let last = records.last();
        let kept = s.kept.push(last);
        if s.result is Err {
            Swept { kept, ..s }
        } else {
            match record_validity(last, manifest) {
                Err(e) => Swept { kept, pending: s.pending, result: Err(e) },
                Ok(_) => if last.phase is Pending {
                    if s.pending is Some {
                        Swept {
                            kept,
                            pending: s.pending,
                            result: invalid("MULTIPLE_PENDING_CONFIG_REQUESTS"),
                        }
                    } else {
                        Swept { kept, pending: Some(s.kept.len() as int), result: Ok(()) }
                    }
                } else if outdated(last.phase, at) {
                    s
                } else {
                    Swept { kept, ..s }
                },
            }
        }
    }
}

proof fn swept_stops(records: Seq<ConfigRecord>, n: int, manifest: Manifest, at: u64)
    requires
        0 <= n <= records.len(),
        swept(records.take(n), manifest, at).result is Err,
    ensures
        swept(records, manifest, at).kept == swept(records.take(n), manifest, at).kept
            + records.skip(n),
        swept(records, manifest, at).result == swept(records.take(n), manifest, at).result,
        swept(records, manifest, at).pending == swept(records.take(n), manifest, at).pending,
    decreases records.len() - n,
{
    let s = swept(records.take(n), manifest, at);
    if n == records.len() {
        assert(records.take(n) =~= records);
        assert(s.kept + records.skip(n) =~= s.kept);
    } else {
        let longer = records.take(n + 1);
        assert(longer.drop_last() =~= records.take(n));
        assert(longer.last() == records[n]);
        swept_stops(records, n + 1, manifest, at);
        assert(s.kept.push(records[n]) + records.skip(n + 1) =~= s.kept + records.skip(n));
    }
}

proof fn swept_pending(records: Seq<ConfigRecord>, manifest: Manifest, at: u64)
    ensures
        match swept(records, manifest, at).pending {
            Some(place) => 0 <= place < swept(records, manifest, at).kept.len() && swept(
                records,
                manifest,
                at,
            ).kept[place].phase is Pending && record_validity(
                swept(records, manifest, at).kept[place],
                manifest,
            ) is Ok,
            None => true,
        },
    decreases records.len(),
{
    if records.len() > 0 {
        swept_pending(records.drop_last(), manifest, at);
    }
}

/// A sweep keeps every pending edit: pending edits never expire.
pub proof fn pending_never_expires(
    records: Seq<ConfigRecord>,
    manifest: Manifest,
    at: u64,
    i: int,
)
    requires
        0 <= i < records.len(),
        records[i].phase is Pending,
    ensures
        swept(records, manifest, at).kept.contains(records[i]),
    decreases records.len(),
{
    let front = records.drop_last();
    let kept = swept(front, manifest, at).kept;
    if i < records.len() - 1 {
        pending_never_expires(front, manifest, at, i);
        assert(front[i] == records[i]);
        let k = choose|k: int| 0 <= k < kept.len() && kept[k] == records[i];
        assert(kept.push(records.last())[k] == records[i]);
    } else {
        assert(kept.push(records.last())[kept.len() as int] == records[i]);
    }
}

/// The record of an edit once it is applied.
pub open spec fn applied_record(record: ConfigRecord, receipt: ConfigReceipt, at: u64) -> ConfigRecord {
    ConfigRecord {
        phase: ConfigPhase::Complete {
            outcome: ConfigOutcome::Applied { receipt },
            completed_at: at,
        },
        ..record
    }
}

/// Complete the edit recorded at `place`. A pending edit becomes the current configuration if that
/// still is the one it started from; if the configuration already is the one it makes, only the
/// record is completed; any other configuration is a conflict and nothing changes.
pub open spec fn finished(store: StoreView, place: int, at: u64) -> (
    StoreView,
    Result<ConfigOutcome>,
) {
    let record = store.config_requests[place];
    match record.phase {
        ConfigPhase::Complete { outcome, .. } => (store, Ok(outcome)),
        ConfigPhase::Pending { before, after, target, receipt } => {
            let observed = sha256(store.manifest.encoded@);
            let records = store.config_requests.update(place, applied_record(record, receipt, at));
            let outcome = ConfigOutcome::Applied { receipt };
            if observed == before@ {
                if store.manifest.revision != record.expected_revision {
                    (store, invalid("CONFIG_TRANSACTION_CONFLICT"))
                } else {
                    (
                        StoreView { manifest: *target, config_requests: records, ..store },
                        Ok(outcome),
                    )
                }
            } else if observed == after@ {
                (StoreView { config_requests: records, ..store }, Ok(outcome))
            } else {
                (store, invalid("CONFIG_TRANSACTION_CONFLICT"))
            }
        },
    }
}

/// The store after recovery, and how recovery ended.
pub open spec fn recovered(store: StoreView, at: u64) -> (StoreView, Result<()>) {
    let s = swept(store.config_requests, store.manifest, at);
    let clean = StoreView { config_requests: s.kept, ..store };
    match s.result {
        Err(e) => (clean, Err(e)),
        Ok(_) => match s.pending {
            None => (clean, Ok(())),
            Some(place) => {
                let (end, result) = finished(clean, place, at);
                (
                    end,
                    match result {
                        Ok(_) => Ok(()),
                        Err(e) => Err(e),
                    },
                )
            },
        },
    }
}

/// Completing a pending edit has one result, whether it was interrupted before or after the
/// configuration was replaced. (Two digests that coincide cannot tell the two situations apart.)
pub proof fn both_sides_of_the_commit_recover(store: StoreView, place: int, at: u64)
    requires
        0 <= place < store.config_requests.len(),
        store.config_requests[place].phase is Pending,
        record_validity(store.config_requests[place], store.manifest) is Ok,
        sha256(store.manifest.encoded@) == store.config_requests[place].phase->before@,
        store.config_requests[place].phase->before@ != store.config_requests[place].phase->after@,
        store.manifest.revision == store.config_requests[place].expected_revision,
    ensures
        ({
            let interrupted = StoreView {
                manifest: *store.config_requests[place].phase->target,
                ..store
            };
            finished(interrupted, place, at) == finished(store, place, at)
        }),
        finished(store, place, at).1 is Ok,
        finished(store, place, at).0.manifest == *store.config_requests[place].phase->target,
{
}

/// Completing an edit that is complete changes nothing and tells the same outcome again.
pub proof fn finishing_again_changes_nothing(store: StoreView, place: int, at: u64, later: u64)
    requires
        0 <= place < store.config_requests.len(),
        finished(store, place, at).1 is Ok,
    ensures
        ({
            let (end, outcome) = finished(store, place, at);
            finished(end, place, later) == (end, outcome)
        }),
{
}

/// A pending edit ends in one of three ways. If the configuration is the one it started from, at the revision it
/// expects, its target becomes the configuration. If the configuration already is its target, the
/// configuration is left alone. Either way the record alone changes besides, and tells that the edit was applied.
/// With any other configuration there is a conflict, and neither the configuration nor the record changes.
pub proof fn pending_edits_end_in_three_ways(store: StoreView, place: int, at: u64)
    requires
        0 <= place < store.config_requests.len(),
        store.config_requests[place].phase is Pending,
    ensures
        ({
            let record = store.config_requests[place];
            let observed = sha256(store.manifest.encoded@);
            let before = record.phase->before@;
            let after = record.phase->after@;
            let receipt = record.phase->Pending_receipt;
            let (end, outcome) = finished(store, place, at);
            let records = store.config_requests.update(place, applied_record(record, receipt, at));
            let told = Ok::<ConfigOutcome, Error>(ConfigOutcome::Applied { receipt });
            &&& observed == before && store.manifest.revision == record.expected_revision ==> end == (
            StoreView { manifest: *record.phase->target, config_requests: records, ..store })
                && outcome == told
            &&& observed != before && observed == after ==> end == (StoreView {
                config_requests: records,
                ..store
            }) && outcome == told
            &&& observed != before && observed != after || observed == before
                && store.manifest.revision != record.expected_revision ==> end == store && outcome
                == invalid::<ConfigOutcome>("CONFIG_TRANSACTION_CONFLICT")
        }),
{
}

/// A record that is sound as a whole. It bears the identifier of its file and belongs to the store. A pending one
/// makes a usable configuration of the revision after the one it expects; an applied one tells of a revision that
/// the store has reached; a rejected one bears a code and the revision at which it was rejected.
pub open spec fn sound_record(record: ConfigRecord, id: Uuid, manifest: Manifest) -> bool {
    &&& id.bits != 0 && record.file == id && record.request_id == id
    &&& record.store_id == manifest.store_id && record.accepted_at > 0
    &&& match record.phase {
        ConfigPhase::Pending { after, target, receipt, .. } => target.validity() is Ok && sha256(
            target.encoded@,
        ) == after@ && receipt.entity_id.bits != 0 && target.revision == receipt.revision
            && receipt.revision == record.expected_revision + 1,
        ConfigPhase::Complete { outcome: ConfigOutcome::Applied { receipt }, completed_at } => {
            completed_at > 0 && receipt.entity_id.bits != 0 && receipt.revision <= manifest.revision
                && receipt.revision == record.expected_revision + 1
        },
        ConfigPhase::Complete {
            outcome: ConfigOutcome::Rejected { code, current_revision },
            completed_at,
        } => completed_at > 0 && text::code_text(code@) && 0 < current_revision
            <= manifest.revision,
    }
}

/// Looking up an edit by its identifier gives a record that is sound as a whole, or no record.
pub proof fn recorded_edits_are_sound(store: StoreView, id: Uuid)
    ensures
        config_lookup(store, id) matches Ok(Some(place)) ==> 0 <= place
            < store.config_requests.len() && sound_record(
            store.config_requests[place],
            id,
            store.manifest,
        ),
        config_lookup(store, id) == Ok::<Option<int>, Error>(None) <==> (forall|k: int|
            0 <= k < store.config_requests.len() ==> (#[trigger] store.config_requests[k]).file
                != id),
{
    let file = config_file(id);
    first_where_found(store.config_requests, file);
    if forall|k: int|
        0 <= k < store.config_requests.len() ==> (#[trigger] store.config_requests[k]).file != id {
        assert forall|k: int| 0 <= k < store.config_requests.len() implies !file(
            #[trigger] store.config_requests[k],
        ) by {}
        first_where_none(store.config_requests, file);
    } else {
        let k = choose|k: int|
            0 <= k < store.config_requests.len() && (#[trigger] store.config_requests[k]).file
                == id;
        assert(file(store.config_requests[k]));
    }
}

/// The secrets that an edit sets, in order, before it may be recorded.
pub open spec fn staged(request: ConfigRequest) -> Seq<SecretView> {
    match request.action {
        ConfigAction::CreateManualProfile { password: Some(value) } => seq![
            SecretView { id: request.request_id, value: value@ },
        ],
        ConfigAction::UpdateManualProfile { password: Some(value), .. } => seq![
            SecretView { id: request.request_id, value: value@ },
        ],
        ConfigAction::EditInstance { secrets } => secret_views(secrets@),
        _ => seq![],
    }
}

/// The profile that an edit may take away from a core that serves it.
pub open spec fn edited_profile(action: ConfigAction) -> Option<Uuid> {
    match action {
        ConfigAction::UpdateManualProfile { profile_id, .. } => Some(profile_id),
        ConfigAction::EditSubscriptionProfile { profile_id, .. } => Some(profile_id),
        ConfigAction::RemoveProfile { profile_id } => Some(profile_id),
        _ => None,
    }
}

/// An edit of a profile that the recorded core serves needs a core update instead, unless it is
/// a subscription edit that leaves the compiled configuration as it is.
pub open spec fn profile_rejection(
    store: StoreView,
    action: ConfigAction,
    compiled: Compiled,
) -> Result<Option<&'static str>> {
    match edited_profile(action) {
        None => Ok(None),
        Some(id) => match recorded_state(store) {
            Err(e) => Err(e),
            Ok(state) => match state_generation(state) {
                None => Ok(None),
                Some(generation) => match opened(store, generation) {
                    Err(e) => Err(e),
                    Ok(active) => {
                        let serves = profile_ids(active.header.profiles@).contains(id);
                        let verdict = if serves {
                            Some("CORE_RECONFIGURATION_REQUIRED")
                        } else {
                            None
                        };
                        if action is EditSubscriptionProfile {
                            match compiled_matches(compiled, active) {
                                Err(e) => Err(e),
                                Ok(true) => Ok(None),
                                Ok(false) => Ok(verdict),
                            }
                        } else {
                            Ok(verdict)
                        }
                    },
                },
            },
        },
    }
}

/// What decides an edit besides the store: the rejection that a preflight found, what applying the
/// edit gives, what the rules on shortcuts say, and the configuration that the target compiles to
/// for the recorded core.
pub struct Preflight {
    pub rejection: Option<&'static str>,
    pub applied: Applied,
    pub shortcut: Option<&'static str>,
    pub compiled: Compiled,
}

/// How a recorded edit begins: complete with a rejection, or pending.
pub enum Opening {
    Rejected(Seq<char>),
    Pending { target: Manifest, entity_id: Uuid },
}

/// How an edit is to be recorded, and the store with the secrets that it set.
pub open spec fn opening(store: StoreView, request: ConfigRequest, preflight: Preflight) -> (
    StoreView,
    Result<Opening>,
) {
    match preflight.applied {
        Applied::Refused(code) => (store, Ok(Opening::Rejected(code@))),
        Applied::Accepted { target, entity_id } => match profile_rejection(
            store,
            request.action,
            preflight.compiled,
        ) {
            Err(e) => (store, Err(e)),
            Ok(profile) => {
                let rejection = match preflight.rejection {
                    Some(code) => Some(code),
                    None => match profile {
                        Some(code) => Some(code),
                        None => preflight.shortcut,
                    },
                };
                match rejection {
                    Some(code) => (store, Ok(Opening::Rejected(code@))),
                    None => {
                        let (secrets, result) = secrets_put(store.secrets, staged(request));
                        let end = StoreView { secrets, ..store };
                        match result {
                            Err(e) => (end, Err(e)),
                            Ok(_) => if target.fault is Some {
                                (end, Ok(Opening::Rejected("INVALID_CONFIG_DEPENDENCY"@)))
                            } else {
                                (end, Ok(Opening::Pending { target: *target, entity_id }))
                            },
                        }
                    },
                }
            },
        },
    }
}

/// The phase that an edit is recorded in.
pub open spec fn opening_phase(phase: ConfigPhase, opening: Opening, manifest: Manifest, at: u64) -> bool {
    match (phase, opening) {
        (
            ConfigPhase::Complete { outcome: ConfigOutcome::Rejected { code, current_revision }, completed_at },
            Opening::Rejected(expected),
        ) => code@ == expected && current_revision == manifest.revision && completed_at == at,
        (
            ConfigPhase::Pending { before, after, target, receipt },
            Opening::Pending { target: expected, entity_id },
        ) => before@ == sha256(manifest.encoded@) && after@ == sha256(target.encoded@) && *target
            == expected && receipt == (ConfigReceipt { entity_id, revision: target.revision }),
        _ => false,
    }
}

/// The record that a new edit gets.
pub open spec fn new_record(
    record: ConfigRecord,
    request: ConfigRequest,
    opening: Opening,
    manifest: Manifest,
    at: u64,
) -> bool {
    record.file == request.request_id && record.format@ == "app-proxy-rust-config-request"@
        && record.schema_version == 1 && record.store_id == manifest.store_id && record.request_id
        == request.request_id && record.request_digest@ == sha256(request.encoded@)
        && record.expected_revision == request.expected_revision && record.accepted_at == at
        && opening_phase(record.phase, opening, manifest, at)
}

/// A recorded edit that a request repeats, a conflict, or nothing.
pub open spec fn replayed(store: StoreView, request: ConfigRequest) -> Result<
    Option<ConfigOutcome>,
> {
    match config_lookup(store, request.request_id) {
        Err(e) => Err(e),
        Ok(None) => Ok(None),
        Ok(Some(at)) => if store.config_requests[at].request_digest@ != sha256(request.encoded@) {
            invalid("REQUEST_ID_CONFLICT")
        } else {
            match store.config_requests[at].phase {
                ConfigPhase::Complete { outcome, .. } => Ok(Some(outcome)),
                ConfigPhase::Pending { .. } => invalid("CONFIG_REQUEST_PENDING"),
            }
        },
    }
}

/// An edit is admitted to the journal: its identifier is its own, the preflight's rejection is a
/// code, and it has an identifier.
pub open spec fn admitted(
    store: StoreView,
    request: ConfigRequest,
    rejection: Option<&'static str>,
) -> Result<()> {
    match unused_elsewhere(store, request.request_id, Journal::Config) {
        Err(e) => Err(e),
        Ok(_) => if rejection matches Some(code) && !text::code_text(code@) {
            invalid("INVALID_REJECTION_CODE")
        } else if request.request_id.bits == 0 {
            invalid("INVALID_REQUEST_ID")
        } else {
            Ok(())
        },
    }
}

pub(crate) fn stage_list(request: &ConfigRequest) -> (r: Vec<Secret>)
    ensures
        secret_views(r@) == staged(*request),
{
    let mut out: Vec<Secret> = Vec::new();
    match &request.action {
        ConfigAction::CreateManualProfile { password: Some(value) } => {
            out.push(Secret { id: request.request_id, value: value.clone() });
        },
        ConfigAction::UpdateManualProfile { password: Some(value), .. } => {
            out.push(Secret { id: request.request_id, value: value.clone() });
        },
        ConfigAction::EditInstance { secrets } => {
            let mut i: usize = 0;
            while i < secrets.len()
                invariant
                    i <= secrets.len(),
                    out@.len() == i,
                    forall|k: int| 0 <= k < i ==> (#[trigger] out@[k])@ == secrets@[k]@,
                decreases secrets.len() - i,
            {
                out.push(Secret { id: secrets[i].id, value: secrets[i].value.clone() });
                i += 1;
            }
        },
        _ => {},
    }
    proof {
        assert(secret_views(out@) =~= staged(*request));
    }
    out
}

impl Store {
    /// The place of the record of edit `id`, once the record is found usable.
    pub(crate) fn find_config_request(&self, id: Uuid) -> (r: Result<Option<usize>>)
        ensures
            match (r, config_lookup(self@, id)) {
                (Ok(Some(at)), Ok(Some(place))) => at == place && at < self.config_requests.len(),
                (Ok(None), Ok(None)) => true,
                (Err(e), Err(f)) => e == f,
                _ => false,
            },
    {
        let mut at: usize = 0;
        while at < self.config_requests.len() && self.config_requests[at].file != id
            invariant
                at <= self.config_requests.len(),
                forall|k: int|
                    0 <= k < at ==> !config_file(id)(#[trigger] self.config_requests@[k]),
            decreases self.config_requests.len() - at,
        {
            at += 1;
        }
        if at == self.config_requests.len() {
            proof {
                first_where_none(self.config_requests@, config_file(id));
            }
            return Ok(None);
        }
        proof {
            first_where_is(self.config_requests@, config_file(id), at as int);
        }
        validate_record(&self.config_requests[at], &self.manifest)?;
        Ok(Some(at))
    }

    /// The record of edit `id`, once it is found usable.
    pub fn read_record(&self, id: Uuid) -> (r: Result<Option<&ConfigRecord>>)
        ensures
            match (r, config_lookup(self@, id)) {
                (Ok(Some(record)), Ok(Some(place))) => *record == self@.config_requests[place]
                    && sound_record(*record, id, self@.manifest),
                (Ok(None), Ok(None)) => true,
                (Err(e), Err(f)) => e == f,
                _ => false,
            },
    {
        proof {
            recorded_edits_are_sound(self@, id);
        }
        match self.find_config_request(id)? {
            None => Ok(None),
            Some(at) => Ok(Some(&self.config_requests[at])),
        }
    }

    /// How far an edit has come, if it is recorded.
    pub fn config_request_status(&self, request_id: Uuid) -> (r: Result<
        Option<ConfigRequestStatus>,
    >)
        ensures
            edit_told(self@, request_id, r),
    {
        if request_id.is_nil() {
            return Err(Error::Invalid("INVALID_REQUEST_ID"));
        }
        match self.find_config_request(request_id)? {
            None => Ok(None),
            Some(at) => match &self.config_requests[at].phase {
                ConfigPhase::Pending { .. } => Ok(Some(ConfigRequestStatus::Pending)),
                ConfigPhase::Complete { outcome, .. } => Ok(
                    Some(ConfigRequestStatus::Complete { outcome: outcome.copy() }),
                ),
            },
        }
    }

    /// Complete the edit recorded at `place`. A pending edit becomes the configuration, or is found to have become
    /// it, or conflicts with it; a complete one tells its outcome again.
    pub fn finish(&mut self, place: usize, at: u64) -> (r: Result<ConfigOutcome>)
        requires
            place < old(self).config_requests.len(),
        ensures
            (final(self)@, r) == finished(old(self)@, place as int, at),
    {
        let ghost records = self.config_requests@;
        let (committed, ready) = match &self.config_requests[place].phase {
            ConfigPhase::Complete { outcome, .. } => {
                return Ok(outcome.copy());
            },
            ConfigPhase::Pending { before, after, .. } => {
                let observed = digest(self.manifest.encoded.as_slice());
                if text::same_bytes(observed.as_slice(), before.as_slice()) {
                    (false, self.manifest.revision == self.config_requests[place].expected_revision)
                } else {
                    (true, text::same_bytes(observed.as_slice(), after.as_slice()))
                }
            },
        };
        if !ready {
            return Err(Error::Invalid("CONFIG_TRANSACTION_CONFLICT"));
        }
        let record = self.config_requests.remove(place);
        match record.phase {
            ConfigPhase::Pending { before: _, after: _, target, receipt } => {
                if !committed {
                    self.manifest = target;
                }
                let done = ConfigRecord {
                    file: record.file,
                    format: record.format,
                    schema_version: record.schema_version,
                    store_id: record.store_id,
                    request_id: record.request_id,
                    request_digest: record.request_digest,
                    expected_revision: record.expected_revision,
                    accepted_at: record.accepted_at,
                    phase: ConfigPhase::Complete {
                        outcome: ConfigOutcome::Applied { receipt },
                        completed_at: at,
                    },
                };
                self.config_requests.insert(place, done);
                proof {
                    assert(self.config_requests@ =~= records.update(place as int, done));
                }
                Ok(ConfigOutcome::Applied { receipt })
            },
            ConfigPhase::Complete { outcome, completed_at } => {
                proof {
                    assert(false);
                }
                Ok(outcome)
            },
        }
    }

    /// Remove outdated receipts and complete the edit that was interrupted, if any. Called before
    /// the store is reported ready and before another edit is accepted.
    pub fn recover_config_requests(&mut self, at: u64) -> (r: Result<()>)
        ensures
            (final(self)@, r) == recovered(old(self)@, at),
    {
        let ghost all = self.config_requests@;
        let ghost before = self@;
        let ghost manifest = self@.manifest;
        let ghost mut n: int = 0;
        let mut i: usize = 0;
        let mut pending: Option<usize> = None;
        proof {
            assert(all.take(0) =~= Seq::<ConfigRecord>::empty());
            assert(all =~= Seq::<ConfigRecord>::empty() + all.skip(0));
        }
        while i < self.config_requests.len()
            invariant
                0 <= n <= all.len(),
                all == before.config_requests,
                before == old(self)@,
                manifest == before.manifest,
                swept(all.take(n), manifest, at).result == Ok::<(), Error>(()),
                self.config_requests@ == swept(all.take(n), manifest, at).kept + all.skip(n),
                i == swept(all.take(n), manifest, at).kept.len(),
                match (pending, swept(all.take(n), manifest, at).pending) {
                    (Some(p), Some(q)) => p == q,
                    (None, None) => true,
                    _ => false,
                },
                self@ == (StoreView { config_requests: self.config_requests@, ..before }),
            decreases self.config_requests.len() - i,
        {
            let ghost s = swept(all.take(n), manifest, at);
            proof {
                assert(self.config_requests@[i as int] == all[n]);
                assert(all.take(n + 1).drop_last() =~= all.take(n));
                assert(all.take(n + 1).last() == all[n]);
                assert(s.kept.push(all[n]) + all.skip(n + 1) =~= s.kept + all.skip(n));
            }
            match validate_record(&self.config_requests[i], &self.manifest) {
                Err(e) => {
                    proof {
                        swept_stops(all, n + 1, manifest, at);
                    }
                    return Err(e);
                },
                Ok(_) => {},
            }
            match &self.config_requests[i].phase {
                ConfigPhase::Pending { .. } => {
                    if pending.is_some() {
                        proof {
                            swept_stops(all, n + 1, manifest, at);
                        }
                        return Err(Error::Invalid("MULTIPLE_PENDING_CONFIG_REQUESTS"));
                    }
                    pending = Some(i);
                    i += 1;
                },
                ConfigPhase::Complete { completed_at, .. } => {
                    if at >= *completed_at && at - *completed_at > RETENTION {
                        self.config_requests.remove(i);
                        proof {
                            assert(self.config_requests@ =~= s.kept + all.skip(n + 1));
                        }
                    } else {
                        i += 1;
                    }
                },
            }
            proof {
                n = n + 1;
            }
        }
        proof {
            assert(n == all.len());
            assert(all.take(n) =~= all);
            assert(self.config_requests@ =~= swept(all, manifest, at).kept);
            swept_pending(all, manifest, at);
        }
        match pending {
            None => Ok(()),
            Some(place) => {
                self.finish(place, at)?;
                Ok(())
            },
        }
    }

    /// What a recorded edit came to, for a client that asks again. This comes before any check of
    /// installed programs, which may no longer succeed after the edit was accepted.
    pub fn replay_config(&mut self, request: &ConfigRequest, at: u64) -> (r: Result<
        Option<ConfigOutcome>,
    >)
        ensures
            replays(old(self)@, final(self)@, *request, at, r),
    {
        if request.request_id.is_nil() {
            return Err(Error::Invalid("INVALID_REQUEST_ID"));
        }
        self.ensure_request_id_unused_elsewhere(request.request_id, Journal::Config)?;
        self.recover_config_requests(at)?;
        self.recorded_outcome(request)
    }

    fn recorded_outcome(&self, request: &ConfigRequest) -> (r: Result<Option<ConfigOutcome>>)
        ensures
            r == replayed(self@, *request),
    {
        match self.find_config_request(request.request_id)? {
            None => Ok(None),
            Some(place) => {
                let record = &self.config_requests[place];
                if !text::same_bytes(
                    record.request_digest.as_slice(),
                    digest(request.encoded.as_slice()).as_slice(),
                ) {
                    return Err(Error::Invalid("REQUEST_ID_CONFLICT"));
                }
                match &record.phase {
                    ConfigPhase::Complete { outcome, .. } => Ok(Some(outcome.copy())),
                    ConfigPhase::Pending { .. } => Err(Error::Invalid("CONFIG_REQUEST_PENDING")),
                }
            },
        }
    }

    fn profile_edit_rejection(&self, action: &ConfigAction, compiled: &Compiled) -> (r: Result<
        Option<&'static str>,
    >)
        ensures
            r == profile_rejection(self@, *action, *compiled),
    {
        let (id, subscription) = match action {
            ConfigAction::UpdateManualProfile { profile_id, .. } => (*profile_id, false),
            ConfigAction::EditSubscriptionProfile { profile_id, .. } => (*profile_id, true),
            ConfigAction::RemoveProfile { profile_id } => (*profile_id, false),
            _ => {
                return Ok(None);
            },
        };
        let state = self.core_state()?;
        match state.generation() {
            None => Ok(None),
            Some(generation) => {
                let active = self.open_core_generation(generation)?;
                if subscription {
                    if core_generation_matches(compiled, active)? {
                        return Ok(None);
                    }
                }
                let ids = active.profile_ids();
                if contains_id(ids.as_slice(), id) {
                    Ok(Some("CORE_RECONFIGURATION_REQUIRED"))
                } else {
                    Ok(None)
                }
            },
        }
    }

    /// Decide how an edit is recorded: rejected, or pending with its secrets set. Secrets are set
    /// only for an edit that nothing rejects, and before validation asks for them.
    fn open_edit(&mut self, request: &ConfigRequest, preflight: Preflight, at: u64) -> (r: Result<
        ConfigPhase,
    >)
        ensures
            final(self)@ == opening(old(self)@, *request, preflight).0,
            match opening(old(self)@, *request, preflight).1 {
                Err(e) => r == Err::<ConfigPhase, Error>(e),
                Ok(opening) => r matches Ok(phase) && opening_phase(
                    phase,
                    opening,
                    old(self)@.manifest,
                    at,
                ),
            },
    {
        let current_revision: u64 = self.manifest.revision;
        let (target, entity_id) = match preflight.applied {
            Applied::Refused(code) => {
                return Ok(
                    ConfigPhase::Complete {
                        outcome: ConfigOutcome::Rejected {
                            code: code.to_owned(),
                            current_revision,
                        },
                        completed_at: at,
                    },
                );
            },
            Applied::Accepted { target, entity_id } => (target, entity_id),
        };
        let profile = self.profile_edit_rejection(&request.action, &preflight.compiled)?;
        let rejection = match preflight.rejection {
            Some(code) => Some(code),
            None => match profile {
                Some(code) => Some(code),
                None => preflight.shortcut,
            },
        };
        match rejection {
            Some(code) => Ok(
                ConfigPhase::Complete {
                    outcome: ConfigOutcome::Rejected { code: code.to_owned(), current_revision },
                    completed_at: at,
                },
            ),
            None => {
                let secrets = stage_list(request);
                self.put_secrets(secrets)?;
                if target.fault.is_some() {
                    return Ok(
                        ConfigPhase::Complete {
                            outcome: ConfigOutcome::Rejected {
                                code: "INVALID_CONFIG_DEPENDENCY".to_owned(),
                                current_revision,
                            },
                            completed_at: at,
                        },
                    );
                }
                let receipt = ConfigReceipt { entity_id, revision: target.revision };
                Ok(
                    ConfigPhase::Pending {
                        before: digest(self.manifest.encoded.as_slice()),
                        after: digest(target.encoded.as_slice()),
                        target,
                        receipt,
                    },
                )
            },
        }
    }

    /// Record an edit without completing it: the first of the two durable steps of
    /// `apply_config_checked`. `None` says that the edit was recorded; otherwise it repeats a
    /// recorded edit, whose outcome is told.
    pub fn stage_config(&mut self, request: &ConfigRequest, preflight: Preflight, at: u64) -> (r:
        Result<Option<ConfigOutcome>>)
        ensures
            staged_step(old(self)@, final(self)@, *request, preflight, at, r),
    {
        self.ensure_request_id_unused_elsewhere(request.request_id, Journal::Config)?;
        match preflight.rejection {
            Some(code) => {
                if !text::is_code(code) {
                    return Err(Error::Invalid("INVALID_REJECTION_CODE"));
                }
            },
            None => {},
        }
        if request.request_id.is_nil() {
            return Err(Error::Invalid("INVALID_REQUEST_ID"));
        }
        self.recover_config_requests(at)?;
        let ghost clean = self@;
        match self.recorded_outcome(request)? {
            Some(outcome) => {
                return Ok(Some(outcome));
            },
            None => {},
        }
        self.ensure_core_update_idle()?;
        let store_id = self.manifest.store_id;
        let phase = self.open_edit(request, preflight, at)?;
        let ghost mid = self@;
        let record = ConfigRecord {
            file: request.request_id,
            format: "app-proxy-rust-config-request".to_owned(),
            schema_version: 1,
            store_id,
            request_id: request.request_id,
            request_digest: digest(request.encoded.as_slice()),
            expected_revision: request.expected_revision,
            accepted_at: at,
            phase,
        };
        self.config_requests.push(record);
        proof {
            assert(mid.config_requests == clean.config_requests);
            assert(self@.config_requests.drop_last() =~= clean.config_requests);
        }
        Ok(None)
    }

    /// Accept, reject or replay an edit. The preflight's rejection is considered only after
    /// repetition and staleness.
    pub fn apply_config_checked(
        &mut self,
        request: &ConfigRequest,
        preflight: Preflight,
        at: u64,
    ) -> (r: Result<ConfigOutcome>)
        ensures
            exists|middle: StoreView, step: Result<Option<ConfigOutcome>>| #[trigger]
                staged_step(old(self)@, middle, *request, preflight, at, step) && match step {
                    Err(e) => r == Err::<ConfigOutcome, Error>(e) && final(self)@ == middle,
                    Ok(Some(outcome)) => r == Ok::<ConfigOutcome, Error>(outcome) && final(self)@
                        == middle,
                    Ok(None) => (final(self)@, r) == finished(
                        middle,
                        middle.config_requests.len() - 1,
                        at,
                    ),
                },
    {
        let ghost start = self@;
        let step = self.stage_config(request, preflight, at);
        let ghost middle = self@;
        proof {
            assert(staged_step(start, middle, *request, preflight, at, step));
        }
        match step {
            Err(e) => Err(e),
            Ok(Some(outcome)) => Ok(outcome),
            Ok(None) => {
                let place: usize = self.config_requests.len() - 1;
                self.finish(place, at)
            },
        }
    }

    /// Accept, reject or replay an edit that no caller rejects. `shortcut` is what the rules on shortcuts say.
    pub fn apply_config(
        &mut self,
        request: &ConfigRequest,
        applied: Applied,
        shortcut: Option<&'static str>,
        compiled: Compiled,
        at: u64,
    ) -> (r: Result<ConfigOutcome>)
        ensures
            exists|middle: StoreView, step: Result<Option<ConfigOutcome>>| #[trigger]
                staged_step(
                    old(self)@,
                    middle,
                    *request,
                    (Preflight { rejection: None, applied, shortcut, compiled }),
                    at,
                    step,
                ) && match step {
                    Err(e) => r == Err::<ConfigOutcome, Error>(e) && final(self)@ == middle,
                    Ok(Some(outcome)) => r == Ok::<ConfigOutcome, Error>(outcome) && final(self)@
                        == middle,
                    Ok(None) => (final(self)@, r) == finished(
                        middle,
                        middle.config_requests.len() - 1,
                        at,
                    ),
                },
    {
        self.apply_config_checked(
            request,
            Preflight { rejection: None, applied, shortcut, compiled },
            at,
        )
    }
}

/// The first durable step of an edit: what it returns, and the store it leaves. A refused or
/// repeated edit leaves the recovered store; a new one adds its record as the last.
pub open spec fn staged_step(
    before: StoreView,
    after: StoreView,
    request: ConfigRequest,
    preflight: Preflight,
    at: u64,
    result: Result<Option<ConfigOutcome>>,
) -> bool {
    match admitted(before, request, preflight.rejection) {
        Err(e) => result == Err::<Option<ConfigOutcome>, Error>(e) && after == before,
        Ok(_) => {
            let (clean, recovery) = recovered(before, at);
            match recovery {
                Err(e) => result == Err::<Option<ConfigOutcome>, Error>(e) && after == clean,
                Ok(_) => match replayed(clean, request) {
                    Err(e) => result == Err::<Option<ConfigOutcome>, Error>(e) && after == clean,
                    Ok(Some(outcome)) => result == Ok::<Option<ConfigOutcome>, Error>(
                        Some(outcome),
                    ) && after == clean,
                    Ok(None) => match idle(clean) {
                        Err(e) => result == Err::<Option<ConfigOutcome>, Error>(e) && after
                            == clean,
                        Ok(_) => {
                            let (open, decision) = opening(clean, request, preflight);
                            match decision {
                                Err(e) => result == Err::<Option<ConfigOutcome>, Error>(e)
                                    && after == open,
                                Ok(chosen) => result == Ok::<Option<ConfigOutcome>, Error>(None)
                                    && after == (StoreView {
                                    config_requests: after.config_requests,
                                    ..open
                                }) && after.config_requests.len() == clean.config_requests.len()
                                    + 1 && after.config_requests.drop_last()
                                    == clean.config_requests && new_record(
                                    after.config_requests.last(),
                                    request,
                                    chosen,
                                    clean.manifest,
                                    at,
                                ),
                            }
                        },
                    },
                },
            }
        },
    }
}

/// What applying an edit gives is of use: a real entity and the next revision of the same store, or the code
/// of a refusal.
pub open spec fn well_applied(store_id: Uuid, request: ConfigRequest, preflight: Preflight) -> bool {
    (match preflight.applied {
        Applied::Accepted { target, entity_id } => entity_id.bits != 0 && target.revision
            == request.expected_revision + 1 && target.store_id == store_id,
        Applied::Refused(code) => text::code_text(code@),
    }) && (preflight.shortcut matches Some(code) ==> text::code_text(code@))
}

/// An edit that was accepted or rejected gets the same answer when it is asked for again.
pub proof fn answers_are_given_again(
    before: StoreView,
    middle: StoreView,
    request: ConfigRequest,
    preflight: Preflight,
    at: u64,
)
    requires
        staged_step(before, middle, request, preflight, at, Ok(None)),
        well_applied(middle.manifest.store_id, request, preflight),
        at != 0,
        middle.manifest.revision != 0,
        finished(middle, middle.config_requests.len() - 1, at).1 is Ok,
    ensures
        ({
            let (end, outcome) = finished(middle, middle.config_requests.len() - 1, at);
            replayed(end, request) == Ok::<Option<ConfigOutcome>, Error>(Some(outcome->Ok_0))
        }),
{
    let (end, outcome) = finished(middle, middle.config_requests.len() - 1, at);
    let clean = recovered(before, at).0;
    let last = middle.config_requests.len() - 1;
    let id = request.request_id;
    fixed_codes();
    first_where_found(clean.config_requests, config_file(id));
    assert forall|k: int| 0 <= k < last implies !config_file(id)(
        #[trigger] end.config_requests[k],
    ) by {
        assert(middle.config_requests.drop_last()[k] == clean.config_requests[k]);
        assert(end.config_requests[k] == middle.config_requests[k]);
        assert(middle.config_requests[k] == clean.config_requests[k]);
    }
    first_where_is(end.config_requests, config_file(id), last);
    assert(record_validity(end.config_requests[last], end.manifest) == Ok::<(), Error>(()));
}

proof fn fixed_codes()
    ensures
        text::code_text("CORE_RECONFIGURATION_REQUIRED"@),
        text::code_text("INVALID_CONFIG_DEPENDENCY"@),
{
    reveal_strlit("CORE_RECONFIGURATION_REQUIRED");
    reveal_strlit("INVALID_CONFIG_DEPENDENCY");
}

/// An answer stays the same while other edits are recorded after it and the configuration moves on.
pub proof fn answers_survive_later_edits(
    store: StoreView,
    later: StoreView,
    request: ConfigRequest,
    added: Seq<ConfigRecord>,
)
    requires
        replayed(store, request) matches Ok(Some(_)),
        later.manifest.store_id == store.manifest.store_id,
        later.manifest.revision >= store.manifest.revision,
        later.config_requests == store.config_requests + added,
    ensures
        replayed(later, request) == replayed(store, request),
{
    let file = config_file(request.request_id);
    first_where_found(store.config_requests, file);
    let place = first_where(store.config_requests, file)->0;
    assert(later.config_requests[place] == store.config_requests[place]);
    assert forall|k: int| 0 <= k < place implies !file(#[trigger] later.config_requests[k]) by {
        assert(later.config_requests[k] == store.config_requests[k]);
    }
    first_where_is(later.config_requests, file, place);
}

/// Every record may be used and none is pending.
pub open spec fn settled(store: StoreView) -> bool {
    forall|k: int|
        0 <= k < store.config_requests.len() ==> !((#[trigger] store.config_requests[k]).phase is Pending)
            && record_validity(store.config_requests[k], store.manifest) is Ok
}

/// Recovery of a settled store succeeds and removes outdated receipts at most.
pub proof fn settled_stores_recover(store: StoreView, at: u64)
    requires
        settled(store),
    ensures
        recovered(store, at).1 is Ok,
        recovered(store, at).0 == (StoreView {
            config_requests: recovered(store, at).0.config_requests,
            ..store
        }),
{
    swept_settled(store.config_requests, store.manifest, at);
}

proof fn swept_settled(records: Seq<ConfigRecord>, manifest: Manifest, at: u64)
    requires
        forall|k: int| 0 <= k < records.len() ==> !((#[trigger] records[k]).phase is Pending),
    ensures
        swept(records, manifest, at).pending is None,
        swept(records, manifest, at).result is Ok ==> forall|k: int|
            0 <= k < swept(records, manifest, at).kept.len() ==> !((#[trigger] swept(
                records,
                manifest,
                at,
            ).kept[k]).phase is Pending) && record_validity(
                swept(records, manifest, at).kept[k],
                manifest,
            ) is Ok,
        (forall|k: int|
            0 <= k < records.len() ==> record_validity(#[trigger] records[k], manifest) is Ok)
            ==> swept(records, manifest, at).result is Ok,
    decreases records.len(),
{
    if records.len() > 0 {
        let front = records.drop_last();
        assert forall|k: int| 0 <= k < front.len() implies !((#[trigger] front[k]).phase is Pending) by {
            assert(front[k] == records[k]);
        }
        assert(!(records[records.len() - 1].phase is Pending));
        swept_settled(front, manifest, at);
        if forall|k: int|
            0 <= k < records.len() ==> record_validity(#[trigger] records[k], manifest) is Ok {
            assert forall|k: int| 0 <= k < front.len() implies record_validity(
                #[trigger] front[k],
                manifest,
            ) is Ok by {
                assert(front[k] == records[k]);
            }
            assert(record_validity(records[records.len() - 1], manifest) is Ok);
        }
    }
}

proof fn swept_finds(records: Seq<ConfigRecord>, manifest: Manifest, at: u64, id: Uuid, place: int)
    requires
        0 <= place < records.len(),
        records[place].file == id,
        forall|k: int| 0 <= k < place ==> (#[trigger] records[k]).file != id,
        !outdated(records[place].phase, at),
    ensures
        first_where(swept(records, manifest, at).kept, config_file(id)) matches Some(q) && swept(
            records,
            manifest,
            at,
        ).kept[q] == records[place],
    decreases records.len(),
{
    let front = records.drop_last();
    let kept = swept(front, manifest, at).kept;
    let file = config_file(id);
    if place < records.len() - 1 {
        assert(front[place] == records[place]);
        assert forall|k: int| 0 <= k < place implies (#[trigger] front[k]).file != id by {
            assert(front[k] == records[k]);
        }
        swept_finds(front, manifest, at, id, place);
        let q = first_where(kept, file)->0;
        first_where_found(kept, file);
        let longer = kept.push(records.last());
        assert forall|k: int| 0 <= k < q implies !file(#[trigger] longer[k]) by {
            assert(longer[k] == kept[k]);
        }
        assert(longer[q] == kept[q]);
        first_where_is(longer, file, q);
    } else {
        assert forall|k: int| 0 <= k < front.len() implies (#[trigger] front[k]).file != id by {
            assert(front[k] == records[k]);
        }
        swept_finds_no_other(front, manifest, at, id);
        let longer = kept.push(records.last());
        assert forall|k: int| 0 <= k < kept.len() implies !file(#[trigger] longer[k]) by {
            assert(longer[k] == kept[k]);
        }
        assert(file(longer[kept.len() as int]));
        first_where_is(longer, file, kept.len() as int);
    }
}

proof fn swept_finds_no_other(records: Seq<ConfigRecord>, manifest: Manifest, at: u64, id: Uuid)
    requires
        forall|k: int| 0 <= k < records.len() ==> (#[trigger] records[k]).file != id,
    ensures
        forall|k: int|
            0 <= k < swept(records, manifest, at).kept.len() ==> (#[trigger] swept(
                records,
                manifest,
                at,
            ).kept[k]).file != id,
    decreases records.len(),
{
    if records.len() > 0 {
        let front = records.drop_last();
        assert forall|k: int| 0 <= k < front.len() implies (#[trigger] front[k]).file != id by {
            assert(front[k] == records[k]);
        }
        assert(records[records.len() - 1].file != id);
        swept_finds_no_other(front, manifest, at, id);
    }
}

/// In a settled store an edit that was answered gets its answer again for as long as the receipt is kept,
/// whatever a new preflight would say; another edit under its identifier is a conflict. Neither changes
/// anything but that outdated receipts are removed.
pub proof fn settled_answers_are_given_again(
    store: StoreView,
    after: StoreView,
    request: ConfigRequest,
    preflight: Preflight,
    at: u64,
    result: Result<Option<ConfigOutcome>>,
)
    requires
        settled(store),
        config_lookup(store, request.request_id) matches Ok(Some(place)) && !outdated(
            store.config_requests[place].phase,
            at,
        ),
        admitted(store, request, preflight.rejection) is Ok,
        staged_step(store, after, request, preflight, at, result),
    ensures
        ({
            let record = store.config_requests[config_lookup(store, request.request_id)->Ok_0->0];
            result == if record.request_digest@ == sha256(request.encoded@) {
                Ok::<Option<ConfigOutcome>, Error>(Some(record.phase->outcome))
            } else {
                invalid("REQUEST_ID_CONFLICT")
            }
        }),
        after == (StoreView { config_requests: after.config_requests, ..store }),
{
    let id = request.request_id;
    let file = config_file(id);
    first_where_found(store.config_requests, file);
    let place = first_where(store.config_requests, file)->0;
    assert forall|k: int| 0 <= k < place implies (#[trigger] store.config_requests[k]).file != id by {
        assert(!file(store.config_requests[k]));
    }
    swept_settled(store.config_requests, store.manifest, at);
    swept_finds(store.config_requests, store.manifest, at, id, place);
    let clean = recovered(store, at).0;
    first_where_found(clean.config_requests, file);
}

/// An edit that is recorded while no other is pending leaves a settled store: behind what recovery kept stands its
/// own record alone.
pub proof fn answered_edits_settle_the_store(
    before: StoreView,
    middle: StoreView,
    request: ConfigRequest,
    preflight: Preflight,
    at: u64,
)
    requires
        forall|k: int|
            0 <= k < before.config_requests.len() ==> !((
            #[trigger] before.config_requests[k]).phase is Pending),
        at != 0,
        before.manifest.revision != 0,
        well_applied(before.manifest.store_id, request, preflight),
        staged_step(before, middle, request, preflight, at, Ok(None)),
        finished(middle, middle.config_requests.len() - 1, at).1 is Ok,
    ensures
        ({
            let end = finished(middle, middle.config_requests.len() - 1, at).0;
            &&& settled(end)
            &&& end.config_requests.drop_last() == recovered(before, at).0.config_requests
            &&& end.config_requests.len() > 0
            &&& config_lookup(end, request.request_id) == Ok::<Option<int>, Error>(
                Some(end.config_requests.len() - 1),
            )
            &&& end.manifest.store_id == before.manifest.store_id
            &&& end.manifest.revision >= before.manifest.revision
        }),
{
    let last = middle.config_requests.len() - 1;
    let end = finished(middle, last, at).0;
    let clean = recovered(before, at).0;
    swept_settled(before.config_requests, before.manifest, at);
    answers_are_given_again(before, middle, request, preflight, at);
    let file = config_file(request.request_id);
    first_where_found(end.config_requests, file);
    first_where_found(clean.config_requests, file);
    assert forall|k: int| 0 <= k < last implies #[trigger] end.config_requests[k]
        == clean.config_requests[k] by {
        assert(middle.config_requests.drop_last()[k] == clean.config_requests[k]);
    }
    assert(end.config_requests.drop_last() =~= clean.config_requests);
    let place = first_where(end.config_requests, file)->0;
    assert(place == last) by {
        if place < last {
            assert(file(clean.config_requests[place]));
        }
    }
    assert forall|k: int| 0 <= k < end.config_requests.len() implies !((
    #[trigger] end.config_requests[k]).phase is Pending) && record_validity(
        end.config_requests[k],
        end.manifest,
    ) is Ok by {
        if k < last {
            assert(record_validity(clean.config_requests[k], clean.manifest) is Ok);
        }
    }
}

/// An answered edit stays recorded as it is while another edit is refused, answered again or carried out, for as
/// long as its receipt is kept.
pub proof fn answers_outlive_other_edits(
    store: StoreView,
    middle: StoreView,
    id: Uuid,
    other: ConfigRequest,
    preflight: Preflight,
    at: u64,
    step: Result<Option<ConfigOutcome>>,
)
    requires
        settled(store),
        config_lookup(store, id) matches Ok(Some(place)) && !outdated(
            store.config_requests[place].phase,
            at,
        ),
        other.request_id != id,
        at != 0,
        store.manifest.revision != 0,
        well_applied(store.manifest.store_id, other, preflight),
        staged_step(store, middle, other, preflight, at, step),
        step == Ok::<Option<ConfigOutcome>, Error>(None) ==> finished(
            middle,
            middle.config_requests.len() - 1,
            at,
        ).1 is Ok,
    ensures
        ({
            let end = if step == Ok::<Option<ConfigOutcome>, Error>(None) {
                finished(middle, middle.config_requests.len() - 1, at).0
            } else {
                middle
            };
            let record = store.config_requests[config_lookup(store, id)->Ok_0->0];
            &&& settled(end)
            &&& config_lookup(end, id) matches Ok(Some(place)) && end.config_requests[place] == record
        }),
{
    let file = config_file(id);
    first_where_found(store.config_requests, file);
    let place = first_where(store.config_requests, file)->0;
    assert forall|k: int| 0 <= k < place implies (#[trigger] store.config_requests[k]).file != id by {
        assert(!file(store.config_requests[k]));
    }
    swept_settled(store.config_requests, store.manifest, at);
    swept_finds(store.config_requests, store.manifest, at, id, place);
    let clean = recovered(store, at).0;
    first_where_found(clean.config_requests, file);
    let q = first_where(clean.config_requests, file)->0;
    if step == Ok::<Option<ConfigOutcome>, Error>(None) {
        answered_edits_settle_the_store(store, middle, other, preflight, at);
        let end = finished(middle, middle.config_requests.len() - 1, at).0;
        assert forall|k: int| 0 <= k < clean.config_requests.len() implies #[trigger] end.config_requests[k]
            == clean.config_requests[k] by {
            assert(end.config_requests.drop_last()[k] == clean.config_requests[k]);
        }
        assert forall|k: int| 0 <= k < q implies !file(#[trigger] end.config_requests[k]) by {
            assert(!file(clean.config_requests[k]));
        }
        first_where_is(end.config_requests, file, q);
    } else if admitted(store, other, preflight.rejection) is Ok {
        assert(middle.config_requests == clean.config_requests && middle.manifest == clean.manifest);
        assert(settled(middle));
    }
}

/// An edit that was asked for once and answered, with no other edit pending, leaves a settled store; asked for
/// again within the time that its receipt is kept it gets the same answer, and the configuration and the secrets
/// are left as they were. Another edit under its identifier is a conflict, and changes as little.
pub proof fn asking_again_changes_nothing(
    before: StoreView,
    middle: StoreView,
    after: StoreView,
    request: ConfigRequest,
    first: Preflight,
    at: u64,
    again: ConfigRequest,
    second: Preflight,
    later: u64,
    result: Result<Option<ConfigOutcome>>,
)
    requires
        forall|k: int|
            0 <= k < before.config_requests.len() ==> !((
            #[trigger] before.config_requests[k]).phase is Pending),
        at != 0,
        before.manifest.revision != 0,
        well_applied(before.manifest.store_id, request, first),
        staged_step(before, middle, request, first, at, Ok(None)),
        finished(middle, middle.config_requests.len() - 1, at).1 is Ok,
        again.request_id == request.request_id,
        later >= at ==> later - at <= RETENTION,
        ({
            let end = finished(middle, middle.config_requests.len() - 1, at).0;
            admitted(end, again, second.rejection) is Ok && staged_step(
                end,
                after,
                again,
                second,
                later,
                result,
            )
        }),
    ensures
        ({
            let (end, outcome) = finished(middle, middle.config_requests.len() - 1, at);
            &&& settled(end)
            &&& result == if sha256(again.encoded@) == sha256(request.encoded@) {
                Ok::<Option<ConfigOutcome>, Error>(Some(outcome->Ok_0))
            } else {
                invalid("REQUEST_ID_CONFLICT")
            }
            &&& after == (StoreView { config_requests: after.config_requests, ..end })
        }),
{
    let end = finished(middle, middle.config_requests.len() - 1, at).0;
    answered_edits_settle_the_store(before, middle, request, first, at);
    settled_answers_are_given_again(end, after, again, second, later, result);
}

/// What is told of an edit.
pub open spec fn edit_told(
    store: StoreView,
    request_id: Uuid,
    r: Result<Option<ConfigRequestStatus>>,
) -> bool {
    r == (if request_id.bits == 0 {
        invalid::<Option<ConfigRequestStatus>>("INVALID_REQUEST_ID")
    } else {
        match config_lookup(store, request_id) {
            Err(e) => Err(e),
            Ok(None) => Ok(None),
            Ok(Some(at)) => Ok(
                Some(
                    match store.config_requests[at].phase {
                        ConfigPhase::Pending { .. } => ConfigRequestStatus::Pending,
                        ConfigPhase::Complete { outcome, .. } => {
                            ConfigRequestStatus::Complete { outcome }
                        },
                    },
                ),
            ),
        }
    })
}

/// What asking again for an edit does and answers.
pub open spec fn replays(
    before: StoreView,
    after: StoreView,
    request: ConfigRequest,
    at: u64,
    r: Result<Option<ConfigOutcome>>,
) -> bool {
    if request.request_id.bits == 0 {
        r == invalid::<Option<ConfigOutcome>>("INVALID_REQUEST_ID") && after
            == before
    } else {
        match unused_elsewhere(before, request.request_id, Journal::Config) {
            Err(e) => r == Err::<Option<ConfigOutcome>, Error>(e) && after
                == before,
            Ok(_) => {
                let (store, recovery) = recovered(before, at);
                after == store && match recovery {
                    Err(e) => r == Err::<Option<ConfigOutcome>, Error>(e),
                    Ok(_) => r == replayed(store, request),
                }
            },
        }
    }
}

} // verus!
