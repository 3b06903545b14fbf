//! What edits of the configuration leave behind, what identifiers and secrets are good for, and what a generation of the
//! core serves, in terms of what is recorded.
use vstd::prelude::*;
use vstd::string::*;
use crate::config_transaction::{Applied, ConfigAction, ConfigOutcome, ConfigPhase, ConfigRecord, ConfigRequest, Opening, Preflight, admitted, config_lookup, new_record, opening, outdated, profile_rejection, recovered, replayed, staged, staged_step};
use crate::core_plan::{config_place, header_profiles};
use crate::core_requests::core_lookup;
use crate::core_state::{CoreProfile, RowView, mapping_matches};
use crate::core_update::idle;
use crate::digest::sha256;
use crate::error::{Error, Result, invalid};
use crate::ids::Uuid;
use crate::login_journal::{entry_request, holds_request, login_validity};
use crate::model::{Manifest, loopback_text};
use crate::path;
use crate::seqs::first_where;
use crate::store::{Journal, SecretView, StoreView, secret_id, secret_put, unused_elsewhere};
use crate::text;

verus! {

/// The record of a new edit tells what was asked for and when: its identifier, the digest of the request and the
/// revision that the client saw.
pub proof fn new_records_tell_the_request(
    record: ConfigRecord,
    request: ConfigRequest,
    chosen: Opening,
    manifest: Manifest,
    at: u64,
)
    requires
        new_record(record, request, chosen, manifest, at),
    ensures
        record.file == request.request_id && record.request_id == request.request_id,
        record.store_id == manifest.store_id && record.schema_version == 1,
        record.request_digest@ == sha256(request.encoded@),
        record.expected_revision == request.expected_revision && record.accepted_at == at,
        chosen matches Opening::Rejected(code) ==> (record.phase matches ConfigPhase::Complete {
            outcome: ConfigOutcome::Rejected { code: told, current_revision },
            completed_at,
        } && told@ == code && current_revision == manifest.revision && completed_at == at),
        chosen matches Opening::Pending { target, entity_id } ==> (record.phase matches ConfigPhase::Pending {
            before,
            after,
            target: kept,
            receipt,
        } && before@ == sha256(manifest.encoded@) && after@ == sha256(target.encoded@) && *kept == target
            && receipt.entity_id == entity_id && receipt.revision == target.revision),
{
}

/// An edit that something speaks against is rejected with the first that does: what the rules of editing say, then
/// the caller's preflight, then the running core, then the rules on shortcuts. Nothing of it is kept, no secret either.
pub proof fn rejected_edits_leave_nothing(store: StoreView, request: ConfigRequest, preflight: Preflight)
    ensures
        preflight.applied matches Applied::Refused(code) ==> opening(store, request, preflight) == (
            store,
            Ok::<Opening, Error>(Opening::Rejected(code@)),
        ),
        preflight.applied is Accepted && profile_rejection(store, request.action, preflight.compiled) is Ok ==> {
            let core = profile_rejection(store, request.action, preflight.compiled)->Ok_0;
            &&& preflight.rejection matches Some(code) ==> opening(store, request, preflight) == (
                store,
                Ok::<Opening, Error>(Opening::Rejected(code@)),
            )
            &&& preflight.rejection is None && core is Some ==> opening(store, request, preflight) == (
                store,
                Ok::<Opening, Error>(Opening::Rejected(core->0@)),
            )
            &&& preflight.rejection is None && core is None && preflight.shortcut is Some ==> opening(
                store,
                request,
                preflight,
            ) == (store, Ok::<Opening, Error>(Opening::Rejected(preflight.shortcut->0@)))
        },
        ({
            let after = opening(store, request, preflight).0;
            after == (StoreView { secrets: after.secrets, ..store })
        }),
{
}

/// An edit of a manual profile sets its password under the edit's own identifier, one of an instance sets the
/// instance's secrets; no other edit sets any.
pub proof fn edits_set_their_own_secrets(request: ConfigRequest)
    ensures
        match request.action {
            ConfigAction::CreateManualProfile { password } => match password {
                Some(value) => staged(request) == seq![SecretView { id: request.request_id, value: value@ }],
                None => staged(request).len() == 0,
            },
            ConfigAction::UpdateManualProfile { password, .. } => match password {
                Some(value) => staged(request) == seq![SecretView { id: request.request_id, value: value@ }],
                None => staged(request).len() == 0,
            },
            ConfigAction::EditInstance { secrets } => staged(request).len() == secrets@.len() && forall|i: int|
                0 <= i < secrets@.len() ==> (#[trigger] staged(request)[i]).id == secrets@[i].id && staged(request)[i].value
                    == secrets@[i].value@,
            _ => staged(request).len() == 0,
        },
{
    match request.action {
        ConfigAction::EditInstance { secrets } => {
            assert forall|i: int| 0 <= i < secrets@.len() implies (#[trigger] staged(request)[i]).id == secrets@[i].id
                && staged(request)[i].value == secrets@[i].value@ by {
                assert(staged(request)[i] == secrets@[i]@);
            }
        },
        _ => {},
    }
}

/// An edit is let into the journal only under an identifier of its own that no other journal holds, and with a
/// preflight that, if it rejects, does so with a code.
pub proof fn edits_have_their_own_identifier(store: StoreView, request: ConfigRequest, rejection: Option<&'static str>)
    ensures
        admitted(store, request, rejection) is Ok <==> unused_elsewhere(store, request.request_id, Journal::Config) is Ok
            && request.request_id.bits != 0 && (rejection matches Some(code) ==> text::code_text(code@)),
        forall|code: Seq<char>| #[trigger] text::code_text(code) <==> 1 <= code.len() <= 96 && forall|i: int|
            0 <= i < code.len() ==> ('A' <= #[trigger] code[i] && code[i] <= 'Z') || code[i] == '_',
{
    assert forall|code: Seq<char>| #[trigger] text::code_text(code) <==> 1 <= code.len() <= 96 && forall|i: int|
        0 <= i < code.len() ==> ('A' <= #[trigger] code[i] && code[i] <= 'Z') || code[i] == '_' by {
        if 1 <= code.len() <= 96 && forall|i: int|
            0 <= i < code.len() ==> ('A' <= #[trigger] code[i] && code[i] <= 'Z') || code[i] == '_' {
            assert forall|i: int| 0 <= i < code.len() implies text::code_char(#[trigger] code[i]) by {}
        }
        if text::code_text(code) {
            assert forall|i: int| 0 <= i < code.len() implies ('A' <= #[trigger] code[i] && code[i] <= 'Z') || code[i]
                == '_' by {
                assert(text::code_char(code[i]));
            }
        }
    }
}

/// The receipt of an edit goes seven days after it was completed, and no sooner; a pending edit stays.
pub proof fn edit_receipts_are_kept_seven_days(phase: ConfigPhase, at: u64)
    ensures
        outdated(phase, at) <==> (phase matches ConfigPhase::Complete { completed_at, .. } && at > completed_at + 604800),
{
}

/// A repeated edit is told what it came to; another one under its identifier is a conflict, and a pending one has to
/// be recovered first.
pub proof fn repeated_edits_are_told_their_outcome(store: StoreView, request: ConfigRequest, place: int)
    requires
        config_lookup(store, request.request_id) == Ok::<Option<int>, Error>(Some(place)),
    ensures
        ({
            let record = store.config_requests[place];
            let same = record.request_digest@ == sha256(request.encoded@);
            &&& !same ==> replayed(store, request) == invalid::<Option<ConfigOutcome>>("REQUEST_ID_CONFLICT")
            &&& same && (record.phase matches ConfigPhase::Complete { outcome, .. }) ==> replayed(store, request) == Ok::<
                Option<ConfigOutcome>,
                Error,
            >(Some(record.phase->outcome))
            &&& same && record.phase is Pending ==> replayed(store, request) is Err
        }),
{
}

/// While an update of the core is under way no new edit is recorded: the answer is why, and the recovered store stays.
pub proof fn updates_keep_edits_waiting(
    before: StoreView,
    after: StoreView,
    request: ConfigRequest,
    preflight: Preflight,
    at: u64,
    result: Result<Option<ConfigOutcome>>,
)
    requires
        staged_step(before, after, request, preflight, at, result),
        admitted(before, request, preflight.rejection) is Ok,
        recovered(before, at).1 is Ok,
        replayed(recovered(before, at).0, request) == Ok::<Option<ConfigOutcome>, Error>(None),
        idle(recovered(before, at).0) is Err,
    ensures
        after == recovered(before, at).0,
        result matches Err(e) && idle(recovered(before, at).0) == Err::<(), Error>(e),
{
}

/// An identifier that one journal holds is refused to every other: to edits what requests for the core and for the
/// login entry hold, to those what the others hold, and to all what is held elsewhere.
pub proof fn identifiers_belong_to_one_journal(store: StoreView, id: Uuid, journal: Journal)
    ensures
        unused_elsewhere(store, id, journal) is Ok ==> {
            &&& journal != Journal::Config ==> config_lookup(store, id) == Ok::<Option<int>, Error>(None)
            &&& journal != Journal::Core ==> core_lookup(store, id) == Ok::<Option<int>, Error>(None)
            &&& journal != Journal::Login ==> login_validity(store) is Ok && forall|i: int|
                0 <= i < store.login.entries.len() ==> entry_request(#[trigger] store.login.entries[i], id) is None
            &&& !store.other_ids.contains(id)
        },
        config_lookup(store, id) == Ok::<Option<int>, Error>(None) && core_lookup(store, id) == Ok::<Option<int>, Error>(
            None,
        ) && login_validity(store) is Ok && (forall|i: int|
            0 <= i < store.login.entries.len() ==> entry_request(#[trigger] store.login.entries[i], id) is None)
            && !store.other_ids.contains(id) ==> unused_elsewhere(store, id, journal) is Ok,
{
    let held = holds_request(id);
    crate::seqs::first_where_found(store.login.entries, held);
    if unused_elsewhere(store, id, journal) is Ok && journal != Journal::Login {
        assert forall|i: int| 0 <= i < store.login.entries.len() implies entry_request(
            #[trigger] store.login.entries[i],
            id,
        ) is None by {
            assert(!held(store.login.entries[i]));
        }
    }
    if forall|i: int|
        0 <= i < store.login.entries.len() ==> entry_request(#[trigger] store.login.entries[i], id) is None {
        match first_where(store.login.entries, held) {
            Some(at) => {
                assert(held(store.login.entries[at]));
            },
            None => {},
        }
    }
}

/// A secret is set once: a new one is added, the same one again changes nothing, another value under its identifier is
/// refused and changes nothing.
pub proof fn secrets_are_set_once(secrets: Seq<SecretView>, secret: SecretView, at: int)
    ensures
        (forall|i: int| 0 <= i < secrets.len() ==> (#[trigger] secrets[i]).id != secret.id) ==> secret_put(secrets, secret)
            == (secrets.push(secret), Ok::<(), Error>(())),
        0 <= at < secrets.len() && secrets[at].id == secret.id && (forall|i: int|
            0 <= i < at ==> (#[trigger] secrets[i]).id != secret.id) ==> secret_put(secrets, secret) == (
            secrets,
            if secrets[at].value == secret.value {
                Ok::<(), Error>(())
            } else {
                invalid("SECRET_ID_CONFLICT")
            },
        ),
{
    let own = secret_id(secret.id);
    if forall|i: int| 0 <= i < secrets.len() ==> (#[trigger] secrets[i]).id != secret.id {
        assert forall|i: int| 0 <= i < secrets.len() implies !own(#[trigger] secrets[i]) by {}
        crate::seqs::first_where_none(secrets, own);
    }
    if 0 <= at < secrets.len() && secrets[at].id == secret.id && (forall|i: int|
        0 <= i < at ==> (#[trigger] secrets[i]).id != secret.id) {
        assert forall|i: int| 0 <= i < at implies !own(#[trigger] secrets[i]) by {}
        crate::seqs::first_where_is(secrets, own, at);
    }
}

/// A new generation lists the profiles that it was made for, in order, each with the endpoint at which the configuration
/// lets it listen.
pub proof fn generations_listen_where_the_configuration_says(manifest: Manifest, ids: Seq<Uuid>, i: int, at: int)
    requires
        0 <= i < ids.len(),
        0 <= at < manifest.profiles@.len(),
        manifest.profiles@[at].id == ids[i],
        forall|k: int| 0 <= k < at ==> (#[trigger] manifest.profiles@[k]).id != ids[i],
    ensures
        header_profiles(manifest, ids).len() == ids.len(),
        header_profiles(manifest, ids)[i].id == ids[i],
        header_profiles(manifest, ids)[i].endpoint == manifest.profiles@[at].endpoint,
{
    let own = crate::model::profile_id(ids[i]);
    assert forall|k: int| 0 <= k < at implies !own(#[trigger] manifest.profiles@[k]) by {}
    crate::seqs::first_where_is(manifest.profiles@, own, at);
}

/// The configuration of a generation lies in the generation's own directory below the store.
pub proof fn configurations_lie_in_their_generation(root: Seq<char>, generation: Uuid)
    ensures
        config_place(root, generation) == path::pushed(
            path::pushed(root, "state/core/generations/"@ + generation.text()),
            "config.json"@,
        ),
{
}

/// A configuration's listeners are those of its profiles: for each profile there is one plain listener under the
/// profile's own tag, at its host and port, and there are no others.
pub proof fn listeners_are_those_of_the_profiles(profiles: Seq<CoreProfile>, rows: Seq<RowView>, i: int)
    requires
        mapping_matches(profiles, rows),
        0 <= i < profiles.len(),
    ensures
        rows.len() == profiles.len(),
        exists|k: int|
            0 <= k < rows.len() && (#[trigger] rows[k]).0 == Some("in-"@ + profiles[i].id.text()) && rows[k].1 == Some(
                "http"@,
            ) && rows[k].2 == Some(loopback_text(profiles[i].endpoint.host)) && rows[k].3 == Some(
                profiles[i].endpoint.port as u64,
            ),
{
    assert(crate::core_state::one_row(rows, profiles[i]));
    let k = choose|k: int|
        0 <= k < rows.len() && #[trigger] crate::core_state::listener_row(rows[k], profiles[i]) && forall|j: int|
            0 <= j < rows.len() && #[trigger] crate::core_state::listener_row(rows[j], profiles[i]) ==> j == k;
    assert(rows[k].0 == Some("in-"@ + profiles[i].id.text()));
}

} // verus!
