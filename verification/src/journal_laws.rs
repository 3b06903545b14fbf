//! What the journals keep of requests and plans: who ends them, what a repetition is told, and what stays as it was, in
//! terms of what is recorded before and after.
use vstd::prelude::*;
use crate::config_transaction::{Applied, ConfigRequest, recovered};
use crate::core_plan::{Draft, both_settle, first_settles, plans_expansion, plans_update, published, resolves, settles, starts, then_settles};
use crate::core_requests::{CoreAction, CoreOutcome, CoreRequest, CoreRequestPhase, OutcomeView, PhaseView, RequestView, UpdateImpact, begins, core_lookup, expired, finishes, outcome_valid, pruned, request_validity, status_told};
use crate::core_start::{Witness, binds, first_damage, recovery_settles, spawn_line, start_prepared, start_resolves};
use crate::core_state::{Compiled, CoreState, StateView, recorded_state};
use crate::core_update::{CoreUpdate, UpdatePhase, required, restore_begins, restore_ends, restore_marked};
use crate::digest::sha256;
use crate::error::{Error, Result, invalid};
use crate::ids::Uuid;
use crate::model::{FileIdentity, ProcessIdentity};
use crate::login::quoted;
use crate::store::StoreView;
use crate::text;

verus! {

/// Every receipt that is younger than seven days, or not settled, is kept.
pub proof fn only_old_receipts_go(records: Seq<CoreRequest>, store_id: Uuid, owner: Seq<char>, at: u64, i: int)
    requires
        0 <= i < records.len(),
        !(records[i].phase@ matches PhaseView::Complete { outcome, completed_at } && !(outcome is Indeterminate) && at
            > completed_at + 604800),
    ensures
        pruned(records, store_id, owner, at).0.contains(records[i]),
    decreases records.len(),
{
    let (kept, so_far) = pruned(records.drop_last(), store_id, owner, at);
    let after = pruned(records, store_id, owner, at).0;
    let last = records.last();
    if i == records.len() - 1 {
        assert(!expired(last.phase@, at));
        assert(after == kept.push(last));
        assert(after[kept.len() as int] == records[i]);
    } else {
        only_old_receipts_go(records.drop_last(), store_id, owner, at, i);
        assert(records.drop_last()[i] == records[i]);
        let k = choose|k: int| 0 <= k < kept.len() && kept[k] == records[i];
        assert(after[k] == records[i]);
    }
}

/// Where pruning succeeds no old receipt is left, and nothing is kept that was not there.
pub proof fn old_receipts_go(records: Seq<CoreRequest>, store_id: Uuid, owner: Seq<char>, at: u64, k: int)
    requires
        pruned(records, store_id, owner, at).1 is Ok,
        0 <= k < pruned(records, store_id, owner, at).0.len(),
    ensures
        ({
            let kept = pruned(records, store_id, owner, at).0[k];
            records.contains(kept) && !(kept.phase@ matches PhaseView::Complete { outcome, completed_at } && !(outcome
                is Indeterminate) && at > completed_at + 604800)
        }),
    decreases records.len(),
{
    let (kept, so_far) = pruned(records.drop_last(), store_id, owner, at);
    let after = pruned(records, store_id, owner, at).0;
    let last = records.last();
    if k < kept.len() {
        old_receipts_go(records.drop_last(), store_id, owner, at, k);
        assert(after[k] == kept[k]);
        let i = choose|i: int| 0 <= i < records.drop_last().len() && records.drop_last()[i] == kept[k];
        assert(records[i] == after[k]);
    } else {
        assert(after[k] == last);
        assert(records[records.len() - 1] == after[k]);
        assert(!expired(last.phase@, at));
    }
}

/// A request that is taken on afresh is recorded as pending, for whoever asked, under its own identifier; a repetition
/// is told how far it has come, and nothing is recorded for it.
pub proof fn requests_are_recorded_before_work(
    before: StoreView,
    after: StoreView,
    id: Uuid,
    epoch: Uuid,
    encoded: Seq<u8>,
    at: u64,
    r: Result<(CoreRequestPhase, bool)>,
)
    requires
        begins(before, after, id, epoch, encoded, at, r),
    ensures
        id.bits == 0 || epoch.bits == 0 ==> r == invalid::<(CoreRequestPhase, bool)>("INVALID_REQUEST_ID") && after
            == before,
        after == (StoreView { core_requests: after.core_requests, ..before }),
        r is Ok && (r->Ok_0).1 ==> {
            let phase = (r->Ok_0).0;
            let made = after.core_requests.last()@;
            &&& phase@ == (PhaseView::Pending { epoch }) && made.phase == phase@
            &&& made.file == id && made.request_id == id && made.digest == sha256(encoded)
            &&& made.accepted_at == at && made.store_id == before.manifest.store_id && made.schema_version == 1
            &&& core_lookup((StoreView { core_requests: after.core_requests.drop_last(), ..before }), id) == Ok::<
                Option<int>,
                Error,
            >(None)
        },
        r is Ok && !(r->Ok_0).1 ==> (core_lookup(after, id) matches Ok(Some(place))
            && after.core_requests[place].phase@ == (r->Ok_0).0@ && after.core_requests[place].digest@ == sha256(encoded)),
{
}

/// A request is ended once, by the one who has it in hand, with an outcome that says something; nothing else changes.
pub proof fn requests_end_by_their_owner(
    before: StoreView,
    after: StoreView,
    id: Uuid,
    epoch: Uuid,
    outcome: CoreOutcome,
    at: u64,
    r: Result<()>,
    place: int,
)
    requires
        finishes(before, after, id, epoch, outcome, at, r),
        core_lookup(before, id) == Ok::<Option<int>, Error>(Some(place)),
        0 <= place < before.core_requests.len(),
    ensures
        r is Ok <==> (before.core_requests[place].phase@ matches PhaseView::Pending { epoch: held } && held == epoch)
            && outcome_valid(outcome@, before.manifest.owner_sid@),
        r is Err ==> after == before,
        r is Ok ==> {
            let (old, new) = (before.core_requests[place]@, after.core_requests[place]@);
            &&& after == (StoreView { core_requests: after.core_requests, ..before })
            &&& after.core_requests.len() == before.core_requests.len()
            &&& forall|k: int|
                0 <= k < before.core_requests.len() && k != place ==> #[trigger] after.core_requests[k]
                    == before.core_requests[k]
            &&& new == (RequestView { phase: new.phase, ..old })
            &&& new.phase matches PhaseView::Complete { outcome: told, completed_at } && told == outcome@ && completed_at
                >= at && completed_at >= old.accepted_at && (completed_at == at || completed_at == old.accepted_at)
        },
{
}

/// A request that nothing is recorded of cannot be ended.
pub proof fn unknown_requests_are_not_ended(
    before: StoreView,
    after: StoreView,
    id: Uuid,
    epoch: Uuid,
    outcome: CoreOutcome,
    at: u64,
    r: Result<()>,
)
    requires
        finishes(before, after, id, epoch, outcome, at, r),
        core_lookup(before, id) == Ok::<Option<int>, Error>(None),
    ensures
        r == invalid::<()>("CORE_REQUEST_NOT_FOUND") && after == before,
{
}

/// Of a request that is recorded its phase is told, of another nothing.
pub proof fn requests_are_told_as_recorded(store: StoreView, id: Uuid, r: Result<Option<CoreRequestPhase>>)
    requires
        status_told(store, id, r),
    ensures
        id.bits == 0 ==> r == invalid::<Option<CoreRequestPhase>>("INVALID_REQUEST_ID"),
        id.bits != 0 && core_lookup(store, id) == Ok::<Option<int>, Error>(None) ==> r == Ok::<
            Option<CoreRequestPhase>,
            Error,
        >(None),
        id.bits != 0 && core_lookup(store, id) is Ok && core_lookup(store, id)->Ok_0 is Some ==> (r matches Ok(Some(phase))
            && phase@ == store.core_requests[core_lookup(store, id)->Ok_0->0].phase@),
{
}

/// Settling a request changes that request alone, and only if it was asked for with the same words and had not been
/// settled; a refusal changes nothing.
pub proof fn settled_requests_change_alone(
    before: StoreView,
    after: StoreView,
    request: Uuid,
    encoded: Seq<u8>,
    outcome: OutcomeView,
    needed: bool,
    at: u64,
    result: Result<()>,
)
    requires
        settles(before, after, request, encoded, outcome, needed, at, result),
    ensures
        result is Err ==> after == before,
        after == (StoreView { core_requests: after.core_requests, ..before }),
        after.core_requests.len() == before.core_requests.len(),
        forall|k: int|
            0 <= k < before.core_requests.len() ==> {
                let (old, new) = (before.core_requests[k]@, #[trigger] after.core_requests[k]@);
                new == old || (old.file == request && old.digest == sha256(encoded) && !(old.phase matches PhaseView::Complete {
                    outcome: told,
                    ..
                } && !(told is Indeterminate)) && new == (RequestView { phase: new.phase, ..old }) && (
                new.phase matches PhaseView::Complete { outcome: told, completed_at } && told == outcome && completed_at
                    >= at))
            },
{
    let own = crate::core_requests::request_file(request);
    crate::seqs::first_where_found(before.core_requests, own);
    match core_lookup(before, request) {
        Ok(Some(place)) => {
            assert(own(before.core_requests[place]));
        },
        _ => {},
    }
}

/// Settling what a plan came to changes the request that prepared it and the one that executed it, and no other.
pub proof fn resolutions_are_of_the_plan(
    before: StoreView,
    after: StoreView,
    id: Uuid,
    exclude: Option<Uuid>,
    prepare: Seq<u8>,
    apply: Seq<u8>,
    at: u64,
    result: Result<()>,
)
    requires
        resolves(before, after, id, exclude, prepare, apply, at, result),
    ensures
        after == (StoreView { core_requests: after.core_requests, ..before }),
        after.core_requests.len() == before.core_requests.len(),
        required(before, id) is Err ==> after == before && result is Err,
        forall|k: int|
            0 <= k < before.core_requests.len() && (#[trigger] after.core_requests[k])@ != before.core_requests[k]@ ==> {
                let (old, new) = (before.core_requests[k]@, after.core_requests[k]@);
                let plan = before.update->0;
                ||| old.file == id && old.digest == sha256(prepare) && (new.phase matches PhaseView::Complete {
                    outcome,
                    ..
                } && outcome is Prepared)
                ||| plan.phase != UpdatePhase::Prepared && plan.execution_request == Some(old.file) && exclude != Some(
                    old.file,
                ) && old.digest == sha256(apply) && (new.phase matches PhaseView::Complete { outcome, .. } && Some(outcome)
                    == (match plan.result {
                    Some(told) => Some(told@),
                    None => None,
                }))
            },
{
    match crate::core_plan::resolution(before, id) {
        Err(_) => {},
        Ok((impact, None)) => {
            let prepared = OutcomeView::Prepared { impact };
            if exclude != Some(id) {
                settled_requests_change_alone(before, after, id, prepare, prepared, true, at, result);
            }
        },
        Ok((impact, Some((request, outcome)))) => {
            let prepared = OutcomeView::Prepared { impact };
            assert(both_settle(before, after, id, exclude, request, prepare, apply, prepared, outcome, at, result));
            let (middle, first) = choose|middle: StoreView, first: Result<()>|
                #[trigger] first_settles(before, middle, exclude, request, apply, outcome, at, first)
                    && #[trigger] then_settles(middle, first, after, id, prepare, prepared, at, result);
            if exclude != Some(request) {
                settled_requests_change_alone(before, middle, request, apply, outcome, true, at, first);
            }
            if first is Ok {
                settled_requests_change_alone(middle, after, id, prepare, prepared, false, at, result);
            }
            assert forall|k: int|
                0 <= k < before.core_requests.len() && (#[trigger] after.core_requests[k])@
                    != before.core_requests[k]@ implies {
                let (old, new) = (before.core_requests[k]@, after.core_requests[k]@);
                let plan = before.update->0;
                ||| old.file == id && old.digest == sha256(prepare) && (new.phase matches PhaseView::Complete {
                    outcome,
                    ..
                } && outcome is Prepared)
                ||| plan.phase != UpdatePhase::Prepared && plan.execution_request == Some(old.file) && exclude != Some(
                    old.file,
                ) && old.digest == sha256(apply) && (new.phase matches PhaseView::Complete { outcome, .. } && Some(outcome)
                    == (match plan.result {
                    Some(told) => Some(told@),
                    None => None,
                }))
            } by {
                let between = middle.core_requests[k]@;
            }
        },
    }
}

/// What is published is the given plan, not yet started; a plan that is refused leaves the recorded one in place.
pub proof fn published_plans_are_the_given_ones(
    middle: StoreView,
    first: Result<()>,
    after: StoreView,
    plan: CoreUpdate,
    size: nat,
    at: u64,
    result: Result<UpdateImpact>,
)
    requires
        published(middle, first, after, plan, size, at, result),
    ensures
        result is Ok ==> {
            let store = recovered(middle, at).0;
            &&& first is Ok && recovered(middle, at).1 is Ok && size <= 524288
            &&& plan.phase == UpdatePhase::Prepared
            &&& after.update == Some(plan) && after == (StoreView { update: after.update, ..store })
        },
        first is Ok && result is Err ==> after == recovered(middle, at).0,
        first is Err ==> after == middle && (result matches Err(e) && first == Err::<(), Error>(e)),
{
}

/// An update is started once, by a request that is pending for it; the plan then tells which request that is.
pub proof fn updates_start_with_their_request(
    before: StoreView,
    after: StoreView,
    id: Uuid,
    execution_request: Uuid,
    apply: Seq<u8>,
    launches: Result<()>,
    at: u64,
    r: Result<&CoreUpdate>,
)
    requires
        starts(before, after, id, execution_request, apply, launches, at, r),
    ensures
        launches is Err ==> r is Err && after == before,
        r is Ok ==> {
            let store = recovered(before, at).0;
            &&& execution_request.bits != 0
            &&& core_lookup(before, execution_request) matches Ok(Some(place)) && before.core_requests[place].phase@ is Pending
                && before.core_requests[place].digest@ == sha256(apply)
            &&& store.update is Some && store.update->0.plan_id == id && store.update->0.phase == UpdatePhase::Prepared
            &&& after == (StoreView { update: after.update, ..store })
            &&& after.update matches Some(plan) && plan == *(r->Ok_0) && plan.phase == UpdatePhase::Switching
                && plan.execution_request == Some(execution_request) && plan == (CoreUpdate {
                phase: plan.phase,
                execution_request: plan.execution_request,
                ..store.update->0
            })
        },
        r is Err ==> after == before || after == recovered(before, at).0,
{
}

/// Planning publishes nothing: a draft tells the configuration as it stands and what it is to become, and the recorded
/// plan stays.
pub proof fn drafts_publish_nothing(
    before: StoreView,
    after: StoreView,
    request: ConfigRequest,
    applied: Applied,
    current: Compiled,
    at: u64,
    r: Result<Draft>,
)
    requires
        plans_update(before, after, request, applied, current, at, r),
    ensures
        before.update matches Some(plan) && (plan.phase == UpdatePhase::Switching || plan.phase == UpdatePhase::Restoring) ==> r
            is Err && after == before,
        r matches Ok(draft) ==> {
            let store = recovered(before, at).0;
            &&& after == (StoreView { secrets: after.secrets, ..store })
            &&& draft.plan_id == request.request_id && *draft.before == store.manifest
            &&& applied matches Applied::Accepted { target, .. } && draft.after == target
            &&& recorded_state(store) matches Ok(StateView::Running { generation, .. }) && draft.generation == generation
        },
{
}

/// An expansion is planned for the profile that needs it, of the configuration that was seen, and publishes nothing.
pub proof fn expansions_publish_nothing(
    before: StoreView,
    after: StoreView,
    id: Uuid,
    expected_revision: u64,
    profiles: Seq<Uuid>,
    required: Uuid,
    current: Compiled,
    at: u64,
    r: Result<Draft>,
)
    requires
        plans_expansion(before, after, id, expected_revision, profiles, required, current, at, r),
    ensures
        id.bits == 0 || !profiles.contains(required) ==> r is Err && after == before,
        r matches Ok(draft) ==> {
            let store = recovered(before, at).0;
            &&& after == store && store.manifest.revision == expected_revision
            &&& draft.plan_id == id && draft.profile_id == required
            &&& *draft.before == store.manifest && *draft.after == store.manifest
            &&& forall|p: Uuid| #[trigger] profiles.contains(p) ==> draft.profiles@.contains(p)
        },
{
    if let Ok(draft) = r {
        assert forall|p: Uuid| #[trigger] profiles.contains(p) implies draft.profiles@.contains(p) by {
            assert(profiles.to_set().contains(p));
            assert(draft.profiles@.to_set().contains(p));
        }
    }
}

/// A start is bound to a request to start, for profiles among which is the one that needs it; the rest of what is
/// recorded of the start stays.
pub proof fn starts_are_bound_to_start_requests(
    before: StoreView,
    after: StoreView,
    id: Uuid,
    action: CoreAction,
    encoded: Vec<u8>,
    r: Result<()>,
)
    requires
        before.start is Some,
        binds(before, after, id, action, encoded, r),
    ensures
        r is Ok <==> id.bits != 0 && (action matches CoreAction::Start { profiles, required } && profiles@.contains(required)),
        r is Err ==> after == before,
        r is Ok ==> {
            &&& after == (StoreView { start: after.start, ..before })
            &&& after.start matches Some(witness) && witness == (Witness { request: witness.request, ..before.start->0 }) && (
            witness.request matches Some(request) && request.id == id && request.encoded == encoded && match (
                request.action,
                action,
            ) {
                (
                    CoreAction::Start { profiles: a, required: x },
                    CoreAction::Start { profiles: b, required: y },
                ) => x == y && a@.to_set() == b@.to_set(),
                _ => false,
            })
        },
{
}

/// No start is prepared while another's result is not known; one that is prepared tells who starts which file for which
/// generation.
pub proof fn starts_are_recorded_before_they_happen(
    before: StoreView,
    after: StoreView,
    generation: Uuid,
    nonce: Uuid,
    creator: ProcessIdentity,
    executable: String,
    image: FileIdentity,
    r: Result<()>,
)
    requires
        start_prepared(before, after, generation, nonce, creator, executable, image, r),
    ensures
        r is Ok <==> recorded_state(before) is Ok && !(recorded_state(before)->Ok_0 is Starting),
        r is Err ==> after == before,
        r is Ok ==> after == (StoreView { start: after.start, ..before }) && (after.start matches Some(witness)
            && witness.store_id == before.manifest.store_id && witness.generation == generation && witness.nonce == nonce
            && witness.creator == creator && witness.executable == executable && witness.image == image
            && witness.request is None && witness.version == 1),
{
}

/// The core is started from the file that was recorded, for the generation that was recorded, with that generation's
/// configuration, and with nothing else on its command line.
pub proof fn only_the_recorded_start_is_spawned(
    witness: Witness,
    generation: Uuid,
    executable: Seq<char>,
    image: FileIdentity,
    config_path: Seq<char>,
    r: Result<Vec<u16>>,
)
    requires
        spawn_line(witness, generation, executable, image, config_path, r),
    ensures
        r is Ok ==> generation == witness.generation && executable == witness.executable@ && image == witness.image,
        r matches Ok(command) ==> command@.len() <= 32767 && command@ == text::utf16(quoted(executable))
            + seq![32u16] + text::utf16(quoted("run"@)) + seq![32u16] + text::utf16(
            quoted("-c"@),
        ) + seq![32u16] + text::utf16(quoted(config_path)) + seq![0u16],
        r is Err && generation == witness.generation && executable == witness.executable@ && image == witness.image ==> r
            == invalid::<Vec<u16>>("CORE_COMMAND_TOO_LONG"),
{
    if let Ok(command) = r {
        assert(command@ =~= text::utf16(quoted(executable)) + seq![32u16] + text::utf16(
            quoted("run"@),
        ) + seq![32u16] + text::utf16(quoted("-c"@)) + seq![32u16] + text::utf16(
            quoted(config_path),
        ) + seq![0u16]);
    }
}

/// Settling behind a recovered start reaches the requests for the same words and not the one that asks; a damaged record
/// stops it, and then nothing changes.
pub proof fn recoveries_settle_like_requests(
    before: StoreView,
    after: StoreView,
    encoded: Seq<u8>,
    outcome: OutcomeView,
    exclude: Uuid,
    at: u64,
    r: Result<()>,
    k: int,
)
    requires
        recovery_settles(before, after, encoded, outcome, exclude, at, r),
        0 <= k < before.core_requests.len(),
    ensures
        r is Err ==> after == before,
        after == (StoreView { core_requests: after.core_requests, ..before }),
        ({
            let (old, new) = (before.core_requests[k]@, after.core_requests[k]@);
            new == old || (r is Ok && old.request_id != exclude && old.digest == sha256(encoded) && new == (RequestView {
                phase: new.phase,
                ..old
            }) && (new.phase matches PhaseView::Complete { outcome: told, .. } && told == outcome))
        }),
        request_validity(before.core_requests[k]@, before.manifest.store_id, before.manifest.owner_sid@) is Err ==> r is Err,
{
    if request_validity(before.core_requests[k]@, before.manifest.store_id, before.manifest.owner_sid@) is Err {
        damage_is_found(before, 0, k);
    }
}

/// A damaged record is found from every place before it.
pub proof fn damage_is_found(store: StoreView, i: int, k: int)
    requires
        0 <= i <= k < store.core_requests.len(),
        request_validity(store.core_requests[k]@, store.manifest.store_id, store.manifest.owner_sid@) is Err,
    ensures
        first_damage(store, i) is Some,
    decreases k - i,
{
    if i < k {
        damage_is_found(store, i + 1, k);
    }
}

/// A recovered start settles the request that it was made for, as reconciled with the process that was found.
pub proof fn recovered_starts_settle_their_request(
    before: StoreView,
    after: StoreView,
    generation: Uuid,
    process: Option<ProcessIdentity>,
    at: u64,
    result: Result<()>,
    k: int,
)
    requires
        start_resolves(before, after, generation, process, at, result),
        0 <= k < before.core_requests.len(),
    ensures
        result is Err ==> after == before,
        result is Ok ==> (before.start matches Some(witness) && witness.generation == generation && witness.store_id
            == before.manifest.store_id && witness.version == 1),
        after == (StoreView { core_requests: after.core_requests, ..before }),
        after.core_requests[k]@ != before.core_requests[k]@ ==> (before.start->0.request matches Some(request)
            && before.core_requests[k].file == request.id && before.core_requests[k].digest@ == sha256(request.encoded@) && (
        after.core_requests[k].phase@ matches PhaseView::Complete { outcome, .. } && outcome == (CoreOutcome::Reconciled {
            generation,
            process,
        })@)),
{
    if let Some(witness) = before.start {
        if let Some(request) = witness.request {
            if witness.version == 1 && witness.store_id == before.manifest.store_id && witness.generation == generation
                && request.action is Start && request.id.bits != 0 {
                settled_requests_change_alone(
                    before,
                    after,
                    request.id,
                    request.encoded@,
                    (CoreOutcome::Reconciled { generation, process })@,
                    false,
                    at,
                    result,
                );
            }
        }
    }
}

/// Going back begins from a plan that is under way, while the configuration is still the old one, and changes the plan's
/// phase alone.
pub proof fn restores_begin_under_way(before: StoreView, after: StoreView, id: Uuid, r: Result<&CoreUpdate>)
    requires
        restore_begins(before, after, id, r),
    ensures
        r is Err ==> after == before,
        r is Ok <==> required(before, id) is Ok && (before.update->0.phase == UpdatePhase::Switching
            || before.update->0.phase == UpdatePhase::Restoring) && before.manifest.encoded@
            == before.update->0.before.encoded@,
        r is Ok ==> after == (StoreView { update: after.update, ..before }) && (after.update matches Some(plan) && plan
            == (CoreUpdate { phase: UpdatePhase::Restoring, ..before.update->0 }) && *(r->Ok_0) == plan),
{
}

/// That the old core is down is recorded only while going back and while the core is down, as of the old generation.
pub proof fn restores_are_marked_while_down(before: StoreView, after: StoreView, id: Uuid, r: Result<()>)
    requires
        restore_marked(before, after, id, r),
    ensures
        r is Err ==> after == before,
        r is Ok <==> required(before, id) is Ok && before.update->0.phase == UpdatePhase::Restoring && recorded_state(before)
            is Ok && recorded_state(before)->Ok_0 is Down,
        r is Ok && (before.update->0.previous matches CoreState::Running { generation: old, .. }) ==> after == (StoreView {
            core: after.core,
            ..before
        }) && (after.core matches Some(core) && core.store_id == before.manifest.store_id && core.schema_version == 1 && (
        core.state matches CoreState::Down { generation } && Some(generation) == (match before.update->0.previous {
            CoreState::Running { generation: old, .. } => Some(old),
            _ => None,
        }))),
{
}

/// A restore ends with what came of it, in the plan's phase and in its result; a refusal changes nothing.
pub proof fn restores_tell_what_came_of_them(before: StoreView, after: StoreView, id: Uuid, core_down: bool, r: Result<()>)
    requires
        restore_ends(before, after, id, core_down, r),
    ensures
        r is Err ==> after == before,
        r is Ok ==> (before.update matches Some(old) && old.plan_id == id && old.phase == UpdatePhase::Restoring && after
            == (StoreView { update: after.update, ..before }) && (after.update matches Some(plan) && plan == (CoreUpdate {
            phase: plan.phase,
            result: plan.result,
            ..old
        }) && plan.phase == (UpdatePhase::Restored { core_down }) && plan.result == Some(
            CoreOutcome::Restored { core_down },
        ))),
{
}

/// A damaged record answers with what is wrong with it, and nothing changes.
pub proof fn damaged_requests_are_not_ended(
    before: StoreView,
    after: StoreView,
    id: Uuid,
    epoch: Uuid,
    outcome: CoreOutcome,
    at: u64,
    r: Result<()>,
)
    requires
        finishes(before, after, id, epoch, outcome, at, r),
        core_lookup(before, id) is Err,
    ensures
        after == before && (r matches Err(e) && core_lookup(before, id) == Err::<Option<int>, Error>(e)),
{
}

} // verus!
