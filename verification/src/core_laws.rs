//! What updates of a running core and edits of its profiles come to, in terms of what is recorded of them.
use vstd::prelude::*;
use vstd::string::*;
use crate::config_transaction::{Applied, ConfigAction, ConfigOutcome, ConfigPhase, ConfigRequest, Preflight, finished, recovered, staged_step};
use crate::core_state::{Compiled, CoreGeneration, CoreProfile, StateView, opened, recorded_state};
use crate::core_update::{CoreUpdate, bound_to, impact_of, not_among};
use crate::digest::sha256;
use crate::error::Error;
use crate::ids::Uuid;
use crate::model::{Instance, NetworkBinding};
use crate::store::StoreView;

verus! {

/// A generation serves a profile.
pub open spec fn serves(generation: CoreGeneration, id: Uuid) -> bool {
    exists|k: int|
        0 <= k < generation.header.profiles@.len() && (#[trigger] generation.header.profiles@[k]).id == id
}

/// An instance reaches the network through a profile that a generation serves.
pub open spec fn goes_through(generation: CoreGeneration) -> spec_fn(Instance) -> bool {
    |instance: Instance|
        match instance.network {
            NetworkBinding::Direct => false,
            NetworkBinding::Profile { profile_id } => serves(generation, profile_id),
        }
}

/// A profile that a generation does not serve.
pub open spec fn unserved(generation: CoreGeneration) -> spec_fn(CoreProfile) -> bool {
    |profile: CoreProfile| !serves(generation, profile.id)
}

proof fn serving_is(generation: CoreGeneration, id: Uuid)
    ensures
        serves(generation, id) <==> crate::core_state::profile_ids(generation.header.profiles@).contains(id),
{
    let ids = crate::core_state::profile_ids(generation.header.profiles@);
    if serves(generation, id) {
        let k = choose|k: int|
            0 <= k < generation.header.profiles@.len() && (#[trigger] generation.header.profiles@[k]).id == id;
        assert(ids[k] == id);
    }
    if ids.contains(id) {
        let k = choose|k: int| 0 <= k < ids.len() && ids[k] == id;
        assert(generation.header.profiles@[k].id == id);
    }
}

proof fn bound_are(instances: Seq<Instance>, generation: CoreGeneration)
    ensures
        bound_to(instances, crate::core_state::profile_ids(generation.header.profiles@)) == instances.filter(
            goes_through(generation),
        ).map_values(|instance: Instance| instance.id),
    decreases instances.len(),
{
    reveal(Seq::filter);
    let ids = crate::core_state::profile_ids(generation.header.profiles@);
    let through = goes_through(generation);
    let f = |instance: Instance| instance.id;
    if instances.len() == 0 {
        assert(bound_to(instances, ids) =~= instances.filter(through).map_values(f));
    } else {
        bound_are(instances.drop_last(), generation);
        match instances.last().network {
            NetworkBinding::Profile { profile_id } => {
                serving_is(generation, profile_id);
            },
            _ => {},
        }
        assert(bound_to(instances, ids) =~= instances.filter(through).map_values(f));
    }
}

proof fn added_are(profiles: Seq<CoreProfile>, generation: CoreGeneration)
    ensures
        not_among(
            crate::core_state::profile_ids(profiles),
            crate::core_state::profile_ids(generation.header.profiles@),
        ) == profiles.filter(unserved(generation)).map_values(|profile: CoreProfile| profile.id),
    decreases profiles.len(),
{
    reveal(Seq::filter);
    let ids = crate::core_state::profile_ids(generation.header.profiles@);
    let all = crate::core_state::profile_ids(profiles);
    let f = |profile: CoreProfile| profile.id;
    if profiles.len() == 0 {
        assert(not_among(all, ids) =~= profiles.filter(unserved(generation)).map_values(f));
    } else {
        added_are(profiles.drop_last(), generation);
        assert(all.drop_last() =~= crate::core_state::profile_ids(profiles.drop_last()));
        serving_is(generation, profiles.last().id);
        assert(not_among(all, ids) =~= profiles.filter(unserved(generation)).map_values(f));
    }
}

/// What the user is told before an update: the generation that runs now, the revision that the plan was made on and
/// the profile that it changes; as affected, all profiles that the running core serves; as bound, the instances that
/// go through one of them, each and no other, in the configuration's order; as added, those that only the new
/// generation serves; as removed, the profile that a removal takes away.
pub proof fn impacts_name_what_the_running_core_serves(
    store: StoreView,
    plan: CoreUpdate,
    generation: Uuid,
    active: CoreGeneration,
    candidate: CoreGeneration,
)
    requires
        plan.previous@ matches StateView::Running { generation: running, .. } && running == generation,
        opened(store, generation) == Ok::<CoreGeneration, Error>(active),
        opened(store, plan.candidate) == Ok::<CoreGeneration, Error>(candidate),
    ensures
        impact_of(store, plan) matches Ok(told) && {
            &&& told.plan_id == plan.plan_id && told.manifest_revision == plan.before.revision
            &&& told.previous_generation == generation && told.changed_profile == plan.profile_id
            &&& told.affected_profiles == active.header.profiles@.map_values(|profile: CoreProfile| profile.id)
            &&& told.bound_instances == plan.before.instances@.filter(goes_through(active)).map_values(
                |instance: Instance| instance.id,
            )
            &&& told.added_profiles == candidate.header.profiles@.filter(unserved(active)).map_values(
                |profile: CoreProfile| profile.id,
            )
            &&& told.removed_profiles == if plan.change is RemoveProfile {
                seq![plan.profile_id]
            } else {
                Seq::empty()
            }
            &&& forall|i: int|
                0 <= i < plan.before.instances@.len() && goes_through(active)(
                    #[trigger] plan.before.instances@[i],
                ) ==> told.bound_instances.contains(plan.before.instances@[i].id)
        },
{
    bound_are(plan.before.instances@, active);
    added_are(candidate.header.profiles@, active);
    let told = impact_of(store, plan)->Ok_0;
    let kept = plan.before.instances@.filter(goes_through(active));
    assert(told.removed_profiles =~= if plan.change is RemoveProfile {
        seq![plan.profile_id]
    } else {
        Seq::empty()
    });
    assert forall|i: int|
        0 <= i < plan.before.instances@.len() && goes_through(active)(
            #[trigger] plan.before.instances@[i],
        ) implies told.bound_instances.contains(plan.before.instances@[i].id) by {
        plan.before.instances@.filter_lemma(goes_through(active));
        assert(kept.contains(plan.before.instances@[i]));
        let k = choose|k: int| 0 <= k < kept.len() && kept[k] == plan.before.instances@[i];
        assert(told.bound_instances[k] == plan.before.instances@[i].id);
    }
}

/// The profile that an edit changes or takes away.
pub open spec fn touches(action: ConfigAction, id: Uuid) -> bool {
    match action {
        ConfigAction::UpdateManualProfile { profile_id, .. } => profile_id == id,
        ConfigAction::EditSubscriptionProfile { profile_id, .. } => profile_id == id,
        ConfigAction::RemoveProfile { profile_id } => profile_id == id,
        _ => false,
    }
}

/// The core's recorded state names a generation: it is starting, running or down with it.
pub open spec fn names_generation(state: StateView, id: Uuid) -> bool {
    match state {
        StateView::Stopped => false,
        StateView::Down { generation } => generation == id,
        StateView::Starting { generation } => generation == id,
        StateView::Running { generation, .. } => generation == id,
    }
}

/// An edit never pulls a profile away from the core that serves it. An edit of a served profile that nothing else
/// speaks against is rejected because the core has to be reconfigured, with the configuration and the secrets left as
/// they were; only an edit of a subscription that leaves the core's configuration as it is goes through.
pub proof fn served_profiles_are_not_pulled_away(
    before: StoreView,
    middle: StoreView,
    request: ConfigRequest,
    preflight: Preflight,
    at: u64,
    profile: Uuid,
    state: StateView,
    generation: Uuid,
    active: CoreGeneration,
)
    requires
        staged_step(before, middle, request, preflight, at, Ok(None)),
        preflight.applied is Accepted,
        preflight.rejection is None,
        touches(request.action, profile),
        recorded_state(recovered(before, at).0) == Ok::<StateView, Error>(state),
        names_generation(state, generation),
        opened(recovered(before, at).0, generation) == Ok::<CoreGeneration, Error>(active),
        serves(active, profile),
        request.action is EditSubscriptionProfile ==> (preflight.compiled matches Compiled::Config(bytes) && sha256(
            bytes@,
        ) != active.header.digest@),
    ensures
        ({
            let clean = recovered(before, at).0;
            let last = middle.config_requests.len() - 1;
            let (end, outcome) = finished(middle, last, at);
            &&& outcome matches Ok(ConfigOutcome::Rejected { code, current_revision }) && code@
                == "CORE_RECONFIGURATION_REQUIRED"@ && current_revision == clean.manifest.revision
            &&& end.manifest == clean.manifest && end.secrets == clean.secrets
            &&& !(end.config_requests[last].phase is Pending)
        }),
{
    serving_is(active, profile);
}

/// An edit that touches no served profile is not rejected on the core's account: if nothing else speaks against it
/// and its secrets can be set, it is recorded as pending, with the configuration it makes.
pub proof fn other_edits_go_through(
    before: StoreView,
    middle: StoreView,
    request: ConfigRequest,
    preflight: Preflight,
    at: u64,
    state: StateView,
)
    requires
        staged_step(before, middle, request, preflight, at, Ok(None)),
        preflight.applied matches Applied::Accepted { target, .. } && target.fault is None,
        preflight.rejection is None,
        preflight.shortcut is None,
        recorded_state(recovered(before, at).0) == Ok::<StateView, Error>(state),
        forall|generation: Uuid, profile: Uuid|
            #[trigger] names_generation(state, generation) && #[trigger] touches(request.action, profile) ==> (opened(
                recovered(before, at).0,
                generation,
            ) matches Ok(active) && (!serves(active, profile) || (request.action is EditSubscriptionProfile && (
            preflight.compiled matches Compiled::Config(bytes) && sha256(bytes@) == active.header.digest@)))),
    ensures
        middle.config_requests.last().phase matches ConfigPhase::Pending { before: b, after, target, receipt } && b@
            == sha256(recovered(before, at).0.manifest.encoded@) && target == preflight.applied->target
            && receipt.entity_id == preflight.applied->entity_id && receipt.revision == target.revision,
        middle.manifest == recovered(before, at).0.manifest,
{
    let clean = recovered(before, at).0;
    match crate::config_transaction::edited_profile(request.action) {
        None => {},
        Some(profile) => {
            assert(touches(request.action, profile));
            match crate::core_state::state_generation(state) {
                None => {},
                Some(generation) => {
                    assert(names_generation(state, generation));
                    serving_is(opened(clean, generation)->Ok_0, profile);
                },
            }
        },
    }
}

} // verus!
