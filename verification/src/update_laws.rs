//! What makes a plan of a core update usable, and what each step of an update needs, in terms of what is recorded.
use vstd::prelude::*;
use vstd::string::*;
use crate::config_transaction::{Applied, ConfigAction, ConfigRequest};
use crate::core_laws::serves;
use crate::core_plan::{Draft, edit_draft, expandable, expansion_draft, plannable, publishable, startable};
use crate::core_requests::{CoreOutcome, OutcomeView};
use crate::core_state::{Compiled, CoreGeneration, StateView, compiled_matches, opened, recorded_state, state_validity};
use crate::core_update::{CoreUpdate, UpdateChange, UpdatePhase, commit_outcome, committable, committed_manifest, idle, manual_sound, old_of, phase_sound, restorable, step_fits, update_validity, without};
use crate::digest::sha256;
use crate::error::{Error, invalid};
use crate::ids::Uuid;
use crate::model::{Host, ProcessView, ProxySource, first_profile};
use crate::store::StoreView;

verus! {

/// A process that may be recorded for a user: a real one of that user, with an absolute path.
pub open spec fn real_process(process: ProcessView, owner: Seq<char>) -> bool {
    process.pid != 0 && process.creation_time != 0 && process.user_sid == owner && crate::path::absolute(
        process.image_path,
    )
}

/// A state is recorded only with a real generation, and a running one only with a real process of the owner.
pub proof fn recorded_states_are_real(state: StateView, owner: Seq<char>)
    ensures
        state_validity(state, owner) is Ok <==> match state {
            StateView::Stopped => true,
            StateView::Down { generation } => generation.bits != 0,
            StateView::Starting { generation } => generation.bits != 0,
            StateView::Running { generation, process } => generation.bits != 0 && real_process(process, owner),
        },
{
}

/// The state of the core is what its record says; without a record the core is stopped, and a record of another
/// store or another form tells nothing.
pub proof fn the_recorded_state_is_the_record(store: StoreView)
    ensures
        store.core is None ==> recorded_state(store) == Ok::<StateView, Error>(StateView::Stopped),
        store.core matches Some(record) ==> {
            let fits = record.schema_version == 1 && record.store_id == store.manifest.store_id;
            &&& !fits ==> recorded_state(store) == invalid::<StateView>("CORE_STATE_OWNER_MISMATCH")
            &&& fits && state_validity(record.state@, store.manifest.owner_sid@) is Ok ==> recorded_state(store) == Ok::<
                StateView,
                Error,
            >(record.state@)
            &&& fits && state_validity(record.state@, store.manifest.owner_sid@) is Err ==> recorded_state(store) is Err
        },
{
}

/// Where a profile may be served: on this machine itself, at a real port.
pub open spec fn local_listener(host: Host, port: u16) -> bool {
    port != 0 && match host {
        Host::V4 { bits } => 0x7f000000 <= bits <= 0x7fffffff,
        Host::V6 { bits } => bits == 1,
    }
}

/// A generation opens only if it is whole: it lies under its identifier, its header is of this store and this
/// generation and lists real profiles on this machine, each once, and its configuration is the recorded one and not
/// too long.
pub proof fn opened_generations_are_whole(store: StoreView, id: Uuid)
    ensures
        opened(store, id) matches Ok(found) ==> {
            let profiles = found.header.profiles@;
            &&& id.bits != 0 && found.directory == id && store.generations.contains(found)
            &&& found.header.generation == id && found.header.store_id == store.manifest.store_id
            &&& found.header.schema_version == 1 && profiles.len() > 0
            &&& forall|i: int|
                0 <= i < profiles.len() ==> (#[trigger] profiles[i]).id.bits != 0 && local_listener(
                    profiles[i].endpoint.host,
                    profiles[i].endpoint.port,
                )
            &&& forall|i: int, j: int|
                0 <= i < j < profiles.len() ==> (#[trigger] profiles[i]).id.bits < (#[trigger] profiles[j]).id.bits
            &&& sha256(found.config@) == found.header.digest@ && found.config@.len() <= store.config_limit
        },
{
    crate::seqs::first_where_found(store.generations, crate::core_state::in_directory(id));
    match opened(store, id) {
        Ok(found) => {
            let profiles = found.header.profiles@;
            let ids = crate::core_state::profile_ids(profiles);
            assert forall|i: int, j: int| 0 <= i < j < profiles.len() implies (#[trigger] profiles[i]).id.bits < (
            #[trigger] profiles[j]).id.bits by {
                assert(ids[i].bits < ids[j].bits);
            }
            assert forall|i: int| 0 <= i < profiles.len() implies (#[trigger] profiles[i]).id.bits != 0
                && local_listener(profiles[i].endpoint.host, profiles[i].endpoint.port) by {
                assert(crate::core_state::servable(profiles[i]));
            }
        },
        Err(_) => {},
    }
}

/// A compiled configuration is a generation's own if its digest is the recorded one; what cannot be compiled is
/// told as such.
pub proof fn configurations_are_compared_by_digest(compiled: Compiled, generation: CoreGeneration)
    ensures
        match compiled {
            Compiled::Config(bytes) => compiled_matches(compiled, generation) == Ok::<bool, Error>(
                sha256(bytes@) == generation.header.digest@,
            ),
            Compiled::Refused(code) => compiled_matches(compiled, generation) == invalid::<bool>(code),
        },
{
}

/// Two generations serve the same profiles, in the same order.
pub open spec fn same_profiles(a: CoreGeneration, b: CoreGeneration) -> bool {
    a.header.profiles@.len() == b.header.profiles@.len() && forall|i: int|
        0 <= i < a.header.profiles@.len() ==> (#[trigger] a.header.profiles@[i]).id == b.header.profiles@[i].id
}

proof fn sameness(a: CoreGeneration, b: CoreGeneration)
    ensures
        same_profiles(a, b) <==> crate::core_state::profile_ids(a.header.profiles@)
            == crate::core_state::profile_ids(b.header.profiles@),
{
    let x = crate::core_state::profile_ids(a.header.profiles@);
    let y = crate::core_state::profile_ids(b.header.profiles@);
    if same_profiles(a, b) {
        assert forall|i: int| 0 <= i < x.len() implies x[i] == y[i] by {
            assert(a.header.profiles@[i].id == b.header.profiles@[i].id);
        }
        assert(x =~= y);
    }
    if x == y {
        assert(x.len() == a.header.profiles@.len() && y.len() == b.header.profiles@.len());
        assert forall|i: int| 0 <= i < a.header.profiles@.len() implies (#[trigger] a.header.profiles@[i]).id
            == b.header.profiles@[i].id by {
            assert(x[i] == y[i]);
            assert(x[i] == a.header.profiles@[i].id && y[i] == b.header.profiles@[i].id);
        }
    }
}

proof fn membership(generation: CoreGeneration, id: Uuid)
    ensures
        serves(generation, id) <==> crate::core_state::profile_ids(generation.header.profiles@).contains(id),
{
    let ids = crate::core_state::profile_ids(generation.header.profiles@);
    if serves(generation, id) {
        let k = choose|k: int|
            0 <= k < generation.header.profiles@.len() && (#[trigger] generation.header.profiles@[k]).id == id;
        assert(ids[k] == id);
    }
    if ids.contains(id) {
        let k = choose|k: int| 0 <= k < ids.len() && ids[k] == id;
        assert(generation.header.profiles@[k].id == id);
    }
}

proof fn without_members(ids: Seq<Uuid>, id: Uuid)
    ensures
        forall|x: Uuid| #[trigger] without(ids, id).contains(x) <==> ids.contains(x) && x != id,
        without(ids, id).len() <= ids.len(),
    decreases ids.len(),
{
    if ids.len() > 0 {
        let front = ids.drop_last();
        without_members(front, id);
        assert forall|x: Uuid| #[trigger] without(ids, id).contains(x) <==> ids.contains(x) && x != id by {
            if front.contains(x) {
                let k = choose|k: int| 0 <= k < front.len() && front[k] == x;
                assert(ids[k] == x);
            }
            if ids.contains(x) {
                let k = choose|k: int| 0 <= k < ids.len() && ids[k] == x;
                if k < front.len() {
                    assert(front[k] == x);
                }
            }
            let rest = without(front, id);
            if ids.last() != id {
                if rest.contains(x) {
                    let k = choose|k: int| 0 <= k < rest.len() && rest[k] == x;
                    assert(rest.push(ids.last())[k] == x);
                }
                assert(rest.push(ids.last())[rest.len() as int] == ids.last());
                if rest.push(ids.last()).contains(x) {
                    let k = choose|k: int| 0 <= k <= rest.len() && rest.push(ids.last())[k] == x;
                    if k < rest.len() {
                        assert(rest[k] == x);
                    }
                }
            }
        }
    }
}

/// A plan that may be used fits its store and its two generations. It names a core that was running; the two snapshots
/// are sound, the generations are what they compile to. What it changes is what its kind says: an edit keeps the
/// profiles that are served and moves the configuration one revision on; a removal takes away one served profile and no
/// other; an expansion adds profiles, keeps all that were served, and leaves the configuration as it is.
pub proof fn usable_plans_fit_their_generations(store: StoreView, plan: CoreUpdate)
    requires
        update_validity(store, plan) is Ok,
    ensures
        plan.store_id == store.manifest.store_id && plan.plan_id.bits != 0 && plan.profile_id.bits != 0,
        plan.schema_version == 2 || (plan.schema_version == 1 && plan.change is EditProfile),
        plan.before.fault is None && plan.after.fault is None,
        plan.previous@ matches StateView::Running { generation, process } && real_process(
            process,
            store.manifest.owner_sid@,
        ) && (opened(store, generation) matches Ok(old) && (opened(store, plan.candidate) matches Ok(new) && {
            &&& plan.before_config matches Compiled::Config(bytes) && sha256(bytes@) == old.header.digest@
            &&& serves(old, plan.profile_id) || plan.change is Expand
            &&& !(plan.change is RemoveProfile && generation == plan.candidate) ==> (plan.after_config matches Compiled::Config(
                bytes,
            ) && sha256(bytes@) == new.header.digest@)
            &&& match plan.change {
                UpdateChange::RemoveProfile => {
                    &&& plan.after.revision == plan.before.revision + 1
                    &&& plan.replay matches Some(bytes) && bytes@ == plan.after.encoded@
                    &&& if forall|x: Uuid| #[trigger] serves(old, x) ==> x == plan.profile_id {
                        generation == plan.candidate
                    } else {
                        generation != plan.candidate && forall|x: Uuid| #[trigger]
                            serves(new, x) <==> serves(old, x) && x != plan.profile_id
                    }
                },
                UpdateChange::Expand { profiles } => {
                    &&& plan.before.encoded@ == plan.after.encoded@ && plan.before.revision == plan.after.revision
                    &&& profiles@.contains(plan.profile_id)
                    &&& forall|x: Uuid| #[trigger] serves(new, x) <==> serves(old, x) || profiles@.contains(x)
                    &&& old.header.profiles@.len() < new.header.profiles@.len() <= 1024
                },
                UpdateChange::EditProfile => same_profiles(old, new) && plan.after.revision == plan.before.revision + 1,
                _ => same_profiles(old, new) && plan.after.revision == plan.before.revision + 1 && (
                plan.replay matches Some(bytes) && bytes@ == plan.after.encoded@),
            }
        })),
{
    let generation = old_of(plan)->Ok_0;
    let old = opened(store, generation)->Ok_0;
    let new = opened(store, plan.candidate)->Ok_0;
    let old_ids = crate::core_state::profile_ids(old.header.profiles@);
    let new_ids = crate::core_state::profile_ids(new.header.profiles@);
    membership(old, plan.profile_id);
    sameness(old, new);
    assert forall|x: Uuid| #[trigger] serves(old, x) <==> old_ids.contains(x) by {
        membership(old, x);
    }
    assert forall|x: Uuid| #[trigger] serves(new, x) <==> new_ids.contains(x) by {
        membership(new, x);
    }
    match plan.change {
        UpdateChange::RemoveProfile => {
            without_members(old_ids, plan.profile_id);
            let rest = without(old_ids, plan.profile_id);
            if rest.len() > 0 {
                assert(rest.contains(rest[0]));
                assert(serves(old, rest[0]));
            } else {
                assert forall|x: Uuid| #[trigger] serves(old, x) implies x == plan.profile_id by {
                    if x != plan.profile_id {
                        assert(rest.contains(x));
                    }
                }
            }
        },
        UpdateChange::Expand { profiles } => {
            assert forall|x: Uuid| #[trigger] serves(new, x) <==> serves(old, x) || profiles@.contains(x) by {
                assert(new_ids.to_set().contains(x) <==> old_ids.to_set().union(profiles@.to_set()).contains(x));
            }
        },
        _ => {},
    }
}

/// An edit of a manual profile changes that profile's one node and its revision, and nothing else of the
/// configuration: where the profile listens, its name and its selected node stay, and so does every other profile.
pub proof fn manual_edits_change_one_node(plan: CoreUpdate, i: int, j: int)
    requires
        manual_sound(plan),
        first_profile(plan.before.profiles@, plan.profile_id) == Some(i),
        first_profile(plan.after.profiles@, plan.profile_id) == Some(j),
    ensures
        ({
            let old = plan.before.profiles@[i];
            let new = plan.after.profiles@[j];
            &&& old.source matches ProxySource::Manual { nodes } && nodes@.len() == 1
            &&& new.source matches ProxySource::Manual { nodes } && nodes@.len() == 1
            &&& new.endpoint == old.endpoint && new.name@ == old.name@ && new.selected_node_id == old.selected_node_id
            &&& new.revision == old.revision + 1
            &&& plan.after.rest@ == plan.before.rest@
            &&& plan.after.profiles@.len() == plan.before.profiles@.len()
            &&& forall|k: int|
                0 <= k < plan.before.profiles@.len() && k != i ==> (#[trigger] plan.after.profiles@[k]).encoded@
                    == plan.before.profiles@[k].encoded@
        }),
{
    let before = crate::core_update::profile_encodings(plan.before.profiles@);
    let after = crate::core_update::profile_encodings(plan.after.profiles@);
    let changed = before.update(i, plan.after.profiles@[j].encoded@);
    assert(after == changed);
    assert(after.len() == plan.after.profiles@.len() && before.len() == plan.before.profiles@.len());
    crate::seqs::first_where_found(plan.before.profiles@, crate::model::profile_id(plan.profile_id));
    assert forall|k: int| 0 <= k < plan.before.profiles@.len() && k != i implies (
    #[trigger] plan.after.profiles@[k]).encoded@ == plan.before.profiles@[k].encoded@ by {
        assert(after[k] == changed[k]);
        assert(after[k] == plan.after.profiles@[k].encoded@ && before[k] == plan.before.profiles@[k].encoded@);
    }
}

/// A plan's phase, its execution and its result agree: a prepared plan has neither, one under way has an execution and
/// no result, a committed one tells what it made and a restored one how it was turned back.
pub proof fn phases_agree_with_results(plan: CoreUpdate, owner: Seq<char>)
    ensures
        phase_sound(plan, owner) <==> match plan.phase {
            UpdatePhase::Prepared => plan.execution_request is None && plan.result is None,
            UpdatePhase::Switching => plan.result is None && (plan.execution_request matches Some(id) && id.bits != 0),
            UpdatePhase::Committing => plan.result is None && (plan.execution_request matches Some(id) && id.bits != 0),
            UpdatePhase::Restoring => plan.result is None && (plan.execution_request matches Some(id) && id.bits != 0),
            UpdatePhase::Committed => (plan.execution_request matches Some(id) && id.bits != 0) && if plan.change
                is RemoveProfile {
                plan.result matches Some(CoreOutcome::ProfileRemoved { profile_id, revision }) && profile_id
                    == plan.profile_id && revision == plan.after.revision
            } else {
                plan.result matches Some(CoreOutcome::Reconfigured { generation, revision, process }) && generation
                    == plan.candidate && revision == plan.after.revision && real_process(process@, owner)
            },
            UpdatePhase::Restored { core_down } => (plan.execution_request matches Some(id) && id.bits != 0) && (
            plan.result matches Some(CoreOutcome::Restored { core_down: told }) && told == core_down),
        },
{
}

/// A store takes on other changes unless it holds a plan that is switching, committing or restoring, or one that may
/// not be used.
pub proof fn only_plans_under_way_block(store: StoreView)
    ensures
        idle(store) is Ok <==> match store.update {
            None => true,
            Some(plan) => update_validity(store, plan) is Ok && !(plan.phase is Switching) && !(plan.phase
                is Committing) && !(plan.phase is Restoring),
        },
        store.update matches Some(plan) && update_validity(store, plan) is Ok && (plan.phase is Switching || plan.phase
            is Committing || plan.phase is Restoring) ==> idle(store) == invalid::<()>("CORE_RECONFIGURATION_PENDING"),
{
}

/// A plan is published or started only as prepared, for the configuration and the state of the core that it was made
/// for; what was changed since makes it stale.
pub proof fn stale_plans_are_neither_published_nor_started(store: StoreView, plan: CoreUpdate, id: Uuid)
    ensures
        publishable(store, plan) is Ok ==> update_validity(store, plan) is Ok && plan.phase is Prepared
            && store.manifest.encoded@ == plan.before.encoded@ && recorded_state(store) == Ok::<StateView, Error>(
            plan.previous@,
        ),
        startable(store, id) is Ok <==> (store.update matches Some(own) && update_validity(store, own) is Ok && own.plan_id
            == id && own.phase is Prepared && store.manifest.encoded@ == own.before.encoded@ && recorded_state(store)
            == Ok::<StateView, Error>(own.previous@)),
        update_validity(store, plan) is Ok && plan.phase is Prepared && recorded_state(store) is Ok && (
        store.manifest.encoded@ != plan.before.encoded@ || recorded_state(store) != Ok::<StateView, Error>(
            plan.previous@,
        )) ==> publishable(store, plan) == invalid::<crate::core_requests::ImpactView>("CORE_UPDATE_PLAN_STALE"),
{
}

/// While an update switches, the core may only be started and run with the new generation; while it restores, only
/// with the old one. It may be stopped for good only where the last profile goes, and be down at any time.
pub proof fn updates_move_the_core_their_way(plan: CoreUpdate, next: StateView)
    ensures
        step_fits(plan, next) is Ok <==> (plan.previous@ matches StateView::Running { generation: old, .. } && match (
            plan.phase,
            next,
        ) {
            (UpdatePhase::Switching, StateView::Starting { generation }) => generation == plan.candidate,
            (UpdatePhase::Switching, StateView::Running { generation, .. }) => generation == plan.candidate,
            (UpdatePhase::Switching, StateView::Down { .. }) => true,
            (UpdatePhase::Switching, StateView::Stopped) => plan.change is RemoveProfile && old == plan.candidate,
            (UpdatePhase::Restoring, StateView::Starting { generation }) => generation == old,
            (UpdatePhase::Restoring, StateView::Running { generation, .. }) => generation == old,
            (UpdatePhase::Restoring, StateView::Down { .. }) => true,
            _ => false,
        }) || (!(plan.previous@ is Running) && plan.phase is Switching && match next {
            StateView::Starting { generation } => generation == plan.candidate,
            StateView::Running { generation, .. } => generation == plan.candidate,
            StateView::Down { .. } => true,
            StateView::Stopped => false,
        }),
{
}

/// An update is committed only while it switches or commits, once its new core runs, or the core is stopped where the
/// last profile went, and only over one of its own two configurations: over the first until the commit has begun.
pub proof fn commits_need_the_new_core(store: StoreView, id: Uuid)
    ensures
        committable(store, id) is Ok <==> (store.update matches Some(plan) && {
            &&& update_validity(store, plan) is Ok && plan.plan_id == id
            &&& recorded_state(store) matches Ok(state) && if plan.change is RemoveProfile && (
            plan.previous@ matches StateView::Running { generation, .. } && generation == plan.candidate) {
                state is Stopped
            } else {
                state matches StateView::Running { generation, .. } && generation == plan.candidate
            }
            &&& (plan.phase is Switching && store.manifest.encoded@ == plan.before.encoded@) || (plan.phase
                is Committing && (store.manifest.encoded@ == plan.before.encoded@ || store.manifest.encoded@
                == plan.after.encoded@))
        }),
        store.update matches Some(plan) ==> committed_manifest(store).encoded@ == plan.after.encoded@,
{
}

/// A committed update is answered with what it made: the profile that is gone, or the generation that serves now with
/// the process that runs it, at the plan's new revision.
pub proof fn commits_tell_what_they_made(plan: CoreUpdate, process: ProcessView)
    ensures
        commit_outcome(plan, StateView::Running { generation: plan.candidate, process }) == if plan.change
            is RemoveProfile {
            OutcomeView::ProfileRemoved { profile_id: plan.profile_id, revision: plan.after.revision }
        } else {
            OutcomeView::Reconfigured { generation: plan.candidate, process, revision: plan.after.revision }
        },
        plan.change is RemoveProfile ==> commit_outcome(plan, StateView::Stopped) == (OutcomeView::ProfileRemoved {
            profile_id: plan.profile_id,
            revision: plan.after.revision,
        }),
{
}

/// An update is recorded as turned back only while it restores, over its first configuration, and with the old
/// generation running, or down where that is what is told.
pub proof fn restores_need_the_old_core(store: StoreView, id: Uuid, core_down: bool)
    ensures
        restorable(store, id, core_down) is Ok <==> (store.update matches Some(plan) && {
            &&& update_validity(store, plan) is Ok && plan.plan_id == id && plan.phase is Restoring
            &&& store.manifest.encoded@ == plan.before.encoded@
            &&& plan.previous@ matches StateView::Running { generation: old, .. } && (recorded_state(store) matches Ok(
                state,
            ) && if core_down {
                state matches StateView::Down { generation } && generation == old
            } else {
                state matches StateView::Running { generation, .. } && generation == old
            })
        }),
{
}

/// The core runs a generation that opens and that is what the configuration compiles to.
pub open spec fn runs_currently(
    store: StoreView,
    current: Compiled,
    generation: Uuid,
    active: CoreGeneration,
) -> bool {
    &&& recorded_state(store) matches Ok(StateView::Running { generation: running, .. }) && running == generation
    &&& opened(store, generation) == Ok::<CoreGeneration, Error>(active)
    &&& current matches Compiled::Config(bytes) && sha256(bytes@) == active.header.digest@
}

/// An update is planned only for a core that runs what the configuration compiles to, and, where it edits a profile,
/// only for one that this core serves.
pub proof fn updates_are_planned_for_a_current_core(
    store: StoreView,
    request: ConfigRequest,
    applied: Applied,
    current: Compiled,
    generation: Uuid,
    active: CoreGeneration,
    profile: Uuid,
)
    requires
        recorded_state(store) matches Ok(StateView::Running { generation: running, .. }) && running == generation,
        opened(store, generation) == Ok::<CoreGeneration, Error>(active),
        match request.action {
            ConfigAction::RemoveProfile { profile_id } => profile_id == profile,
            ConfigAction::UpdateManualProfile { profile_id, .. } => profile_id == profile,
            ConfigAction::EditSubscriptionProfile { profile_id, .. } => profile_id == profile,
            _ => false,
        },
    ensures
        plannable(store, request, applied, current) is Ok <==> serves(active, profile) && runs_currently(
            store,
            current,
            generation,
            active,
        ) && applied is Accepted,
        !serves(active, profile) ==> plannable(store, request, applied, current) == invalid::<()>("PROFILE_NOT_ACTIVE"),
{
    membership(active, profile);
}

/// The draft of an edit leads from the current configuration to the one that the edit makes, and from the generation
/// that runs to one that serves the same profiles, without the one that a removal takes away.
pub proof fn drafts_serve_what_is_left(
    draft: Draft,
    store: StoreView,
    request: ConfigRequest,
    applied: Applied,
    current: Compiled,
    generation: Uuid,
    active: CoreGeneration,
    id: Uuid,
)
    requires
        runs_currently(store, current, generation, active),
        applied is Accepted,
        plannable(store, request, applied, current) is Ok,
        edit_draft(draft, store, request, applied, current),
    ensures
        draft.plan_id == request.request_id,
        *draft.before == store.manifest,
        draft.after == applied->target,
        draft.generation == generation,
        draft.previous@ == recorded_state(store)->Ok_0,
        match request.action {
            ConfigAction::RemoveProfile { profile_id } => draft.profile_id == profile_id && draft.change is RemoveProfile && (
            draft.profiles@.contains(id) <==> serves(active, id) && id != profile_id),
            ConfigAction::UpdateManualProfile { profile_id, .. } => draft.profile_id == profile_id && draft.change
                is EditProfile && (draft.profiles@.contains(id) <==> serves(active, id)),
            ConfigAction::EditSubscriptionProfile { profile_id, refresh } => draft.profile_id == profile_id && (if refresh {
                draft.change is RefreshSubscription
            } else {
                draft.change is SelectSubscriptionNode
            }) && (draft.profiles@.contains(id) <==> serves(active, id)),
            _ => false,
        },
{
    membership(active, id);
    match request.action {
        ConfigAction::RemoveProfile { profile_id } => {
            without_members(crate::core_state::profile_ids(active.header.profiles@), profile_id);
        },
        _ => {},
    }
}

/// An expansion is planned only at the revision that the client saw, and only if it adds a profile; the new generation
/// serves the old profiles and the wanted ones, and the configuration stays.
pub proof fn expansions_add_profiles(
    draft: Draft,
    store: StoreView,
    plan_id: Uuid,
    expected_revision: u64,
    profiles: Seq<Uuid>,
    wanted: Uuid,
    current: Compiled,
    generation: Uuid,
    active: CoreGeneration,
    id: Uuid,
)
    requires
        runs_currently(store, current, generation, active),
    ensures
        store.manifest.revision != expected_revision ==> expandable(store, expected_revision, profiles, current)
            == invalid::<()>("STALE_MANIFEST_REVISION"),
        store.manifest.revision == expected_revision && (forall|x: Uuid| #[trigger] profiles.contains(x) ==> serves(active, x))
            ==> expandable(store, expected_revision, profiles, current) == invalid::<()>("CORE_PROFILE_SET_UNCHANGED"),
        expandable(store, expected_revision, profiles, current) is Ok ==> exists|x: Uuid| #[trigger]
            profiles.contains(x) && !serves(active, x),
        expansion_draft(draft, store, plan_id, profiles, wanted, current) ==> {
            &&& draft.plan_id == plan_id && draft.profile_id == wanted && draft.generation == generation
            &&& *draft.before == store.manifest && *draft.after == store.manifest
            &&& draft.profiles@.contains(id) <==> serves(active, id) || profiles.contains(id)
        },
{
    let served = crate::core_state::profile_ids(active.header.profiles@);
    assert forall|x: Uuid| #[trigger] serves(active, x) <==> served.contains(x) by {
        membership(active, x);
    }
    if expandable(store, expected_revision, profiles, current) is Ok {
        assert(!profiles.to_set().subset_of(served.to_set()));
        let x = choose|x: Uuid| #[trigger] profiles.to_set().contains(x) && !served.to_set().contains(x);
        assert(profiles.contains(x) && !serves(active, x));
    }
    if forall|x: Uuid| #[trigger] profiles.contains(x) ==> serves(active, x) {
        assert forall|x: Uuid| #[trigger] profiles.to_set().contains(x) implies served.to_set().contains(x) by {
            assert(profiles.contains(x));
            assert(serves(active, x));
        }
        assert(profiles.to_set().subset_of(served.to_set()));
    }
    if expansion_draft(draft, store, plan_id, profiles, wanted, current) {
        assert(draft.profiles@.to_set().contains(id) <==> served.to_set().union(profiles.to_set()).contains(id));
        assert(serves(active, id) <==> served.contains(id));
    }
}

} // verus!
