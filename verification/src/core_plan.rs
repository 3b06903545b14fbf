//! Making, publishing, starting and settling core updates.
use std::sync::Arc;
use vstd::prelude::*;
use vstd::string::*;
use crate::config_transaction::{Applied, ConfigAction, ConfigRequest, recovered, settled, settled_stores_recover, staged};
use crate::core_requests::{CoreOutcome, CoreRequest, CoreRequestPhase, ImpactView, OutcomeView, PhaseView, RequestView, UpdateImpact, core_lookup, outcome_valid, unresolved, validate_outcome};
use crate::core_state::{Compiled, CoreGeneration, CoreProfile, CoreState, Header, StateView, allowed, compiled_matches, core_generation_matches, opened, profile_ids, recorded_state, state_generation, state_validity, transition_outcome};
use crate::core_update::{CoreUpdate, SubscriptionEdit, UpdateChange, UpdatePhase, dependencies, idle, impact_of, required, subscription, subscription_edit, union_of, update_validity, with_state, without};
use crate::digest::{digest, sha256};
use crate::error::{Error, Result, invalid};
use crate::ids::Uuid;
use crate::model::{Manifest, Profile, ProxySource, ascending, contains_id, copy_ids, find_profile, first_profile, sorted};
use crate::store::{Store, StoreView, secrets_put, share};
use crate::path;
use crate::text;

verus! {

/// The largest encoding of what a plan affects, in bytes.
pub const IMPACT_LIMIT: usize = 524288;

/// A plan whose candidate generation is still to be made. `profiles` are the profiles that it will
/// serve; where none is left, the old generation stands in for it.
#[derive(Debug)]
pub struct Draft {
    pub plan_id: Uuid,
    pub profile_id: Uuid,
    pub change: UpdateChange,
    pub before: Arc<Manifest>,
    pub after: Arc<Manifest>,
    pub previous: CoreState,
    pub generation: Uuid,
    pub profiles: Vec<Uuid>,
}

impl Draft {
    /// The plan with its candidate, not yet published. `candidate` is the generation that was made
    /// for the draft's profiles.
    pub fn complete(
        self,
        candidate: Uuid,
        before_config: Compiled,
        after_config: Compiled,
        replay: Option<Vec<u8>>,
    ) -> (r: CoreUpdate)
        ensures
            draft_completed(self, candidate, before_config, after_config, replay, r),
    {
        CoreUpdate {
            schema_version: 2,
            store_id: self.before.store_id,
            plan_id: self.plan_id,
            profile_id: self.profile_id,
            change: self.change,
            candidate: if self.profiles.len() == 0 {
                self.generation
            } else {
                candidate
            },
            before: self.before,
            after: self.after,
            previous: self.previous,
            phase: UpdatePhase::Prepared,
            execution_request: None,
            result: None,
            before_config,
            after_config,
            replay,
        }
    }
}

/// The profile and the kind of change that an edit makes of a running core.
pub open spec fn planned(action: ConfigAction) -> Option<(Uuid, UpdateChange)> {
    match action {
        ConfigAction::RemoveProfile { profile_id } => Some(
            (profile_id, UpdateChange::RemoveProfile),
        ),
        ConfigAction::UpdateManualProfile { profile_id, .. } => Some(
            (profile_id, UpdateChange::EditProfile),
        ),
        ConfigAction::EditSubscriptionProfile { profile_id, refresh } => Some(
            (
                profile_id,
                if refresh {
                    UpdateChange::RefreshSubscription
                } else {
                    UpdateChange::SelectSubscriptionNode
                },
            ),
        ),
        _ => None,
    }
}

/// The generation that runs, if its configuration still is the current one.
pub open spec fn running_current(store: StoreView, current: Compiled) -> Result<
    (Uuid, CoreGeneration),
> {
    match recorded_state(store) {
        Err(e) => Err(e),
        Ok(StateView::Running { generation, .. }) => match opened(store, generation) {
            Err(e) => Err(e),
            Ok(active) => match compiled_matches(current, active) {
                Err(e) => Err(e),
                Ok(false) => invalid("CORE_CONFIG_CHANGED"),
                Ok(true) => Ok((generation, active)),
            },
        },
        Ok(_) => invalid("CORE_UPDATE_REQUIRES_RUNNING"),
    }
}

/// Whether an edit of a running core can be planned in a recovered store.
pub open spec fn plannable(
    store: StoreView,
    request: ConfigRequest,
    applied: Applied,
    current: Compiled,
) -> Result<()> {
    match planned(request.action) {
        None => invalid("INVALID_CORE_UPDATE_ACTION"),
        Some((profile_id, _)) => match recorded_state(store) {
            Err(e) => Err(e),
            Ok(StateView::Running { generation, .. }) => match opened(store, generation) {
                Err(e) => Err(e),
                Ok(active) => if !profile_ids(active.header.profiles@).contains(profile_id) {
                    invalid("PROFILE_NOT_ACTIVE")
                } else {
                    match running_current(store, current) {
                        Err(e) => Err(e),
                        Ok(_) => match applied {
                            Applied::Refused(code) => invalid(code),
                            Applied::Accepted { .. } => Ok(()),
                        },
                    }
                },
            },
            Ok(_) => invalid("CORE_UPDATE_REQUIRES_RUNNING"),
        },
    }
}

/// The draft that an edit of a running core gets.
pub open spec fn edit_draft(
    draft: Draft,
    store: StoreView,
    request: ConfigRequest,
    applied: Applied,
    current: Compiled,
) -> bool {
    let (profile_id, change) = planned(request.action)->0;
    let (generation, active) = running_current(store, current)->Ok_0;
    let served = profile_ids(active.header.profiles@);
    draft.plan_id == request.request_id && draft.profile_id == profile_id && draft.change == change
        && *draft.before == store.manifest && draft.after == applied->target && Ok::<
        StateView,
        Error,
    >(draft.previous@) == recorded_state(store) && draft.generation == generation
        && draft.profiles@ == (if change is RemoveProfile {
        without(served, profile_id)
    } else {
        served
    })
}

/// Whether an expansion can be planned in a recovered store.
pub open spec fn expandable(
    store: StoreView,
    expected_revision: u64,
    profiles: Seq<Uuid>,
    current: Compiled,
) -> Result<()> {
    if store.manifest.revision != expected_revision {
        invalid("STALE_MANIFEST_REVISION")
    } else {
        match running_current(store, current) {
            Err(e) => Err(e),
            Ok((_, old)) => {
                let served = profile_ids(old.header.profiles@);
                if profiles.to_set().subset_of(served.to_set()) {
                    invalid("CORE_PROFILE_SET_UNCHANGED")
                } else if served.to_set().union(profiles.to_set()).len() > 1024 {
                    invalid("CORE_PROFILE_LIMIT")
                } else {
                    Ok(())
                }
            },
        }
    }
}

/// The draft that an expansion gets: the configuration stays, and the candidate serves the old
/// profiles together with the new ones.
pub open spec fn expansion_draft(
    draft: Draft,
    store: StoreView,
    id: Uuid,
    profiles: Seq<Uuid>,
    required: Uuid,
    current: Compiled,
) -> bool {
    let (generation, old) = running_current(store, current)->Ok_0;
    draft.plan_id == id && draft.profile_id == required && (draft.change matches UpdateChange::Expand {
        profiles: normalized,
    } && ascending(normalized@) && normalized@.to_set() == profiles.to_set()) && *draft.before
        == store.manifest && *draft.after == store.manifest && Ok::<StateView, Error>(
        draft.previous@,
    ) == recorded_state(store) && draft.generation == generation && ascending(draft.profiles@)
        && draft.profiles@.to_set() == profile_ids(old.header.profiles@).to_set().union(
        profiles.to_set(),
    )
}

proof fn ascending_len(ids: Seq<Uuid>)
    requires
        ascending(ids),
    ensures
        ids.to_set().len() == ids.len(),
{
    assert(ids.no_duplicates()) by {
        assert forall|i: int, j: int| 0 <= i < ids.len() && 0 <= j < ids.len() && i != j implies ids[i]
            != ids[j] by {
            if i < j {
                assert(ids[i].bits < ids[j].bits);
            } else {
                assert(ids[j].bits < ids[i].bits);
            }
        }
    }
    ids.unique_seq_to_set();
}

/// How settling a request changes the records: nothing, or the phase of the record at `place`.
pub open spec fn settled_records(
    before: Seq<CoreRequest>,
    after: Seq<CoreRequest>,
    place: int,
    phase: PhaseView,
) -> bool {
    after.len() == before.len() && (forall|k: int|
        0 <= k < before.len() && k != place ==> #[trigger] after[k] == before[k]) && after[place]@
        == (RequestView { phase, ..before[place]@ })
}

/// Whether a receipt can be settled for an action: the record must be there if it is needed, be
/// of exactly that action, and the outcome must be recordable.
pub open spec fn settlement(
    store: StoreView,
    request: Uuid,
    encoded: Seq<u8>,
    outcome: OutcomeView,
    needed: bool,
) -> Result<Option<int>> {
    match core_lookup(store, request) {
        Err(e) => Err(e),
        Ok(None) => if needed {
            invalid("CORE_UPDATE_REQUEST_MISMATCH")
        } else {
            Ok(None)
        },
        Ok(Some(place)) => if store.core_requests[place].digest@ != sha256(encoded) {
            invalid("CORE_UPDATE_REQUEST_MISMATCH")
        } else if !unresolved(store.core_requests[place].phase@) {
            Ok(None)
        } else if !outcome_valid(outcome, store.manifest.owner_sid@) {
            invalid("INVALID_CORE_REQUEST_OUTCOME")
        } else {
            Ok(Some(place))
        },
    }
}

/// The phase of a receipt that is settled at `at`.
pub open spec fn settled_phase(record: CoreRequest, outcome: OutcomeView, at: u64) -> PhaseView {
    PhaseView::Complete {
        outcome,
        completed_at: if at < record.accepted_at {
            record.accepted_at
        } else {
            at
        },
    }
}

/// Settling the receipt of `request` leads from `before` to `after` with this result.
pub open spec fn settles(
    before: StoreView,
    after: StoreView,
    request: Uuid,
    encoded: Seq<u8>,
    outcome: OutcomeView,
    needed: bool,
    at: u64,
    result: Result<()>,
) -> bool {
    match settlement(before, request, encoded, outcome, needed) {
        Err(e) => result == Err::<(), Error>(e) && after == before,
        Ok(None) => result == Ok::<(), Error>(()) && after == before,
        Ok(Some(place)) => result == Ok::<(), Error>(()) && after == (StoreView {
            core_requests: after.core_requests,
            ..before
        }) && settled_records(
            before.core_requests,
            after.core_requests,
            place,
            settled_phase(before.core_requests[place], outcome, at),
        ),
    }
}

/// The request that prepared a plan, rebuilt from the plan. `node` is the encoding of a manual profile's
/// node, whose password is read separately.
#[derive(Debug)]
pub enum Preparation {
    Remove { expected_revision: u64, profile_id: Uuid },
    Expand { expected_revision: u64, profiles: Vec<Uuid>, required: Uuid },
    Subscription { expected_revision: u64, profile_id: Uuid, edit: SubscriptionEdit },
    Update { expected_revision: u64, profile_id: Uuid, node: Vec<u8> },
}

/// The first node of a manual profile.
pub open spec fn manual_node(profiles: Seq<Profile>, id: Uuid) -> Option<Seq<u8>> {
    match first_profile(profiles, id) {
        Some(at) => match profiles[at].source {
            ProxySource::Manual { nodes } if nodes@.len() > 0 => Some(nodes@[0]@),
            _ => None,
        },
        None => None,
    }
}

/// The request that prepared a plan. A manual edit needs its profile to be a manual one.
pub open spec fn prepared_by(plan: CoreUpdate, preparation: Result<Preparation>) -> bool {
    match plan.change {
        UpdateChange::RemoveProfile => preparation == Ok::<Preparation, Error>(
            Preparation::Remove {
                expected_revision: plan.before.revision,
                profile_id: plan.profile_id,
            },
        ),
        UpdateChange::Expand { profiles: wanted } => preparation matches Ok(
            Preparation::Expand { expected_revision, profiles, required },
        ) && expected_revision == plan.before.revision && profiles@ == wanted@ && required
            == plan.profile_id,
        UpdateChange::EditProfile => match manual_node(plan.after.profiles@, plan.profile_id) {
            Some(encoded) => preparation matches Ok(
                Preparation::Update { expected_revision, profile_id, node },
            ) && expected_revision == plan.before.revision && profile_id == plan.profile_id && node@
                == encoded,
            None => preparation == invalid::<Preparation>("INVALID_CORE_UPDATE_RECORD"),
        },
        _ => match subscription(plan) {
            Ok(Some(view)) => preparation matches Ok(
                Preparation::Subscription { expected_revision, profile_id, edit },
            ) && expected_revision == plan.before.revision && profile_id == plan.profile_id
                && edit@ == view,
            Ok(None) => false,
            Err(e) => preparation == Err::<Preparation, Error>(e),
        },
    }
}

/// Rebuild the request that prepared a plan.
pub fn preparation(plan: &CoreUpdate) -> (r: Result<Preparation>)
    ensures
        prepared_by(*plan, r),
{
    match &plan.change {
        UpdateChange::RemoveProfile => Ok(
            Preparation::Remove {
                expected_revision: plan.before.revision,
                profile_id: plan.profile_id,
            },
        ),
        UpdateChange::Expand { profiles } => Ok(
            Preparation::Expand {
                expected_revision: plan.before.revision,
                profiles: copy_ids(profiles.as_slice()),
                required: plan.profile_id,
            },
        ),
        UpdateChange::EditProfile => {
            match find_profile(plan.after.profiles.as_slice(), plan.profile_id) {
                Some(at) => match &plan.after.profiles[at].source {
                    ProxySource::Manual { nodes } => {
                        if nodes.len() > 0 {
                            return Ok(
                                Preparation::Update {
                                    expected_revision: plan.before.revision,
                                    profile_id: plan.profile_id,
                                    node: text::copy_bytes(nodes[0].as_slice()),
                                },
                            );
                        }
                    },
                    _ => {},
                },
                None => {},
            }
            Err(Error::Invalid("INVALID_CORE_UPDATE_RECORD"))
        },
        _ => match subscription_edit(plan)? {
            Some(edit) => Ok(
                Preparation::Subscription {
                    expected_revision: plan.before.revision,
                    profile_id: plan.profile_id,
                    edit,
                },
            ),
            None => Err(Error::Invalid("INVALID_CORE_UPDATE_RECORD")),
        },
    }
}

/// What resolving the requests of an update is about to record, or why it cannot be resolved.
pub open spec fn resolution(store: StoreView, id: Uuid) -> Result<
    (ImpactView, Option<(Uuid, OutcomeView)>),
> {
    match required(store, id) {
        Err(e) => Err(e),
        Ok(_) => {
            let plan = store.update->0;
            match impact_of(store, plan) {
                Err(e) => Err(e),
                Ok(impact) => if plan.phase == UpdatePhase::Prepared {
                    Ok((impact, None))
                } else {
                    match (plan.execution_request, plan.result) {
                        (None, _) => invalid("CORE_UPDATE_NOT_EXECUTED"),
                        (_, None) => invalid("CORE_UPDATE_RESULT_UNKNOWN"),
                        (Some(request), Some(outcome)) => Ok((impact, Some((request, outcome@)))),
                    }
                },
            }
        },
    }
}

/// Resolving the requests of the update named `id` leads from `before` to `after` with this result.
/// A prepared plan settles its preparation. An executed plan settles its execution first, so that
/// a request of another action stops everything, and then the preparation if that is recorded.
/// `exclude` names a request that its own run will settle.
pub open spec fn resolves(
    before: StoreView,
    after: StoreView,
    id: Uuid,
    exclude: Option<Uuid>,
    prepare: Seq<u8>,
    apply: Seq<u8>,
    at: u64,
    result: Result<()>,
) -> bool {
    match resolution(before, id) {
        Err(e) => result == Err::<(), Error>(e) && after == before,
        Ok((impact, None)) => {
            let prepared = OutcomeView::Prepared { impact };
            if exclude == Some(id) {
                result == Ok::<(), Error>(()) && after == before
            } else {
                settles(before, after, id, prepare, prepared, true, at, result)
            }
        },
        Ok((impact, Some((request, outcome)))) => {
            let prepared = OutcomeView::Prepared { impact };
            both_settle(
                before,
                after,
                id,
                exclude,
                request,
                prepare,
                apply,
                prepared,
                outcome,
                at,
                result,
            )
        },
    }
}

/// Resolving an executed plan settles the execution, then the preparation.
pub open spec fn both_settle(
    before: StoreView,
    after: StoreView,
    id: Uuid,
    exclude: Option<Uuid>,
    request: Uuid,
    prepare: Seq<u8>,
    apply: Seq<u8>,
    prepared: OutcomeView,
    outcome: OutcomeView,
    at: u64,
    result: Result<()>,
) -> bool {
    exists|middle: StoreView, first: Result<()>|
        #[trigger] first_settles(before, middle, exclude, request, apply, outcome, at, first)
            && #[trigger] then_settles(middle, first, after, id, prepare, prepared, at, result)
}

/// The first half of resolving an executed plan.
pub open spec fn first_settles(
    before: StoreView,
    middle: StoreView,
    exclude: Option<Uuid>,
    request: Uuid,
    apply: Seq<u8>,
    outcome: OutcomeView,
    at: u64,
    first: Result<()>,
) -> bool {
    if exclude == Some(request) {
        middle == before && first == Ok::<(), Error>(())
    } else {
        settles(before, middle, request, apply, outcome, true, at, first)
    }
}

/// The second half of resolving an executed plan.
pub open spec fn then_settles(
    middle: StoreView,
    first: Result<()>,
    after: StoreView,
    id: Uuid,
    prepare: Seq<u8>,
    prepared: OutcomeView,
    at: u64,
    result: Result<()>,
) -> bool {
    if first is Err {
        result == first && after == middle
    } else {
        settles(middle, after, id, prepare, prepared, false, at, result)
    }
}

/// A request that executes a plan: it is recorded, pending, and of exactly that action.
pub open spec fn executes(store: StoreView, request: Uuid, apply: Seq<u8>) -> Result<()> {
    match core_lookup(store, request) {
        Err(e) => Err(e),
        Ok(Some(place)) if store.core_requests[place].digest@ == sha256(apply)
            && store.core_requests[place].phase@ is Pending => Ok(()),
        _ => invalid("CORE_UPDATE_REQUEST_MISMATCH"),
    }
}

/// Whether a plan can be started in a recovered store.
pub open spec fn startable(store: StoreView, id: Uuid) -> Result<()> {
    match required(store, id) {
        Err(e) => Err(e),
        Ok(_) => if store.update->0.phase != UpdatePhase::Prepared {
            invalid("CORE_UPDATE_ALREADY_APPLIED")
        } else {
            dependencies(store, store.update->0)
        },
    }
}

/// Whether a plan can be published in a recovered store.
pub open spec fn publishable(store: StoreView, plan: CoreUpdate) -> Result<ImpactView> {
    match update_validity(store, plan) {
        Err(e) => Err(e),
        Ok(_) => if plan.phase != UpdatePhase::Prepared {
            invalid("INVALID_CORE_UPDATE_PHASE")
        } else {
            match dependencies(store, plan) {
                Err(e) => Err(e),
                Ok(_) => impact_of(store, plan),
            }
        },
    }
}

/// The profiles that a new generation's header lists: each identifier with the place where the
/// configuration lets that profile listen.
pub open spec fn header_profiles(manifest: Manifest, ids: Seq<Uuid>) -> Seq<CoreProfile> {
    ids.map_values(
        |id: Uuid|
            CoreProfile {
                id,
                endpoint: manifest.profiles@[first_profile(manifest.profiles@, id)->0].endpoint,
            },
    )
}

/// Where the configuration of a generation lies below the directory of its store.
pub open spec fn config_place(root: Seq<char>, generation: Uuid) -> Seq<char> {
    path::pushed(
        path::pushed(root, "state/core/generations/"@ + generation.text()),
        "config.json"@,
    )
}

impl Store {
    /// Record a core configuration as a new generation and open it. `config` is what the snapshot `source`
    /// compiles to for the profiles `ids`; a generation changes neither the running core's journal nor the
    /// configuration.
    pub fn record_core_generation(
        &mut self,
        source: &Manifest,
        generation: Uuid,
        ids: &[Uuid],
        config: Vec<u8>,
        path: String,
    ) -> (r: Result<()>)
        requires
            forall|i: int|
                0 <= i < ids@.len() ==> first_profile(
                    source.profiles@,
                    #[trigger] ids@[i],
                ) is Some,
        ensures
            generation_recorded(old(self)@, final(self)@, *source, generation, ids@, config, path, r),
    {
        let mut profiles: Vec<CoreProfile> = Vec::new();
        let mut i: usize = 0;
        let ghost wanted = header_profiles(*source, ids@);
        while i < ids.len()
            invariant
                i <= ids.len(),
                self@ == old(self)@,
                wanted == header_profiles(*source, ids@),
                profiles@ == wanted.take(i as int),
                forall|k: int|
                    0 <= k < ids@.len() ==> first_profile(
                        source.profiles@,
                        #[trigger] ids@[k],
                    ) is Some,
            decreases ids.len() - i,
        {
            let id = ids[i];
            match find_profile(source.profiles.as_slice(), id) {
                Some(at) => {
                    profiles.push(
                        CoreProfile { id, endpoint: source.profiles[at].endpoint },
                    );
                },
                None => {
                    proof {
                        assert(first_profile(source.profiles@, ids@[i as int]) is Some);
                    }
                },
            }
            i += 1;
            proof {
                assert(wanted.take(i as int) =~= wanted.take(i - 1).push(wanted[i - 1]));
            }
        }
        proof {
            assert(wanted.take(wanted.len() as int) =~= wanted);
        }
        let ghost before = self.generations@;
        let made = CoreGeneration {
            directory: generation,
            header: Header {
                schema_version: 1,
                store_id: self.manifest.store_id,
                generation,
                digest: digest(config.as_slice()),
                profiles,
            },
            path,
            config,
        };
        self.generations.push(made);
        proof {
            assert(self.generations@.drop_last() =~= before);
        }
        self.open_core_generation(generation)?;
        Ok(())
    }

    /// Record what a snapshot compiles to as a new generation under a random name, and open it. `root` is
    /// the directory of the store.
    pub fn prepare_core_generation_for(
        &mut self,
        source: &Manifest,
        ids: &[Uuid],
        config: Vec<u8>,
        root: &str,
    ) -> (r: Result<Uuid>)
        requires
            forall|i: int|
                0 <= i < ids@.len() ==> first_profile(
                    source.profiles@,
                    #[trigger] ids@[i],
                ) is Some,
        ensures
            final(self)@ == (StoreView { generations: final(self)@.generations, ..old(self)@ }),
            final(self)@.generations.len() == old(self)@.generations.len() + 1,
            final(self)@.generations.drop_last() == old(self)@.generations,
            ({
                let made = final(self)@.generations.last();
                let generation = made.header.generation;
                &&& generation.random() && made.directory == generation
                &&& made.path@ == config_place(root@, generation)
                &&& made.config == config && made.header.schema_version == 1
                &&& made.header.store_id == old(self)@.manifest.store_id
                &&& made.header.digest@ == sha256(config@)
                &&& made.header.profiles@ == header_profiles(*source, ids@)
                &&& match r {
                    Ok(id) => id == generation && opened(final(self)@, generation) is Ok,
                    Err(e) => opened(final(self)@, generation) == Err::<CoreGeneration, Error>(e),
                }
            }),
    {
        let generation = Uuid::new_v4();
        let name = text::join("state/core/generations/", generation.to_text().as_str());
        let path = path::push(path::push(root, name.as_str()).as_str(), "config.json");
        self.record_core_generation(source, generation, ids, config, path)?;
        Ok(generation)
    }

    /// Record what the current configuration compiles to as a new generation under a random name, and open it. `root` is the
    /// directory of the store.
    pub fn prepare_core_generation(&mut self, ids: &[Uuid], config: Vec<u8>, root: &str) -> (r: Result<
        Uuid,
    >)
        requires
            forall|i: int|
                0 <= i < ids@.len() ==> first_profile(
                    old(self)@.manifest.profiles@,
                    #[trigger] ids@[i],
                ) is Some,
        ensures
            generation_prepared(old(self)@, final(self)@, ids@, config, root@, r),
    {
        let source = share(&self.manifest);
        self.prepare_core_generation_for(&source, ids, config, root)
    }

    /// Record the core's next state. An interrupted edit is completed first, so that a core is
    /// never started from a configuration that an accepted edit has replaced; an active update
    /// keeps the journal to itself. `compiled` is what the current configuration compiles to for
    /// the profiles of the generation that is started.
    pub fn transition_core_state(
        &mut self,
        expected: &CoreState,
        next: CoreState,
        compiled: &Compiled,
        at: u64,
    ) -> (r: Result<()>)
        ensures
            (final(self)@, r) == moved(old(self)@, expected@, next, *compiled, at),
    {
        self.ensure_core_update_idle()?;
        self.recover_config_requests(at)?;
        self.transition_core_state_inner(expected, next, compiled, false)
    }

    /// Draft the plan that moves a running core to an edited configuration. `applied` is what the
    /// edit makes of the current configuration, `current` what that configuration compiles to for
    /// the running profiles. The edit's password is set as a secret.
    pub fn prepare_core_update(
        &mut self,
        request: &ConfigRequest,
        applied: Applied,
        current: &Compiled,
        at: u64,
    ) -> (r: Result<Draft>)
        ensures
            plans_update(old(self)@, final(self)@, *request, applied, *current, at, r),
    {
        self.ensure_core_update_idle()?;
        self.recover_config_requests(at)?;
        let ghost store = self@;
        let (profile_id, change) = match &request.action {
            ConfigAction::RemoveProfile { profile_id } => (
                *profile_id,
                UpdateChange::RemoveProfile,
            ),
            ConfigAction::UpdateManualProfile { profile_id, .. } => (
                *profile_id,
                UpdateChange::EditProfile,
            ),
            ConfigAction::EditSubscriptionProfile { profile_id, refresh } => (
                *profile_id,
                if *refresh {
                    UpdateChange::RefreshSubscription
                } else {
                    UpdateChange::SelectSubscriptionNode
                },
            ),
            _ => {
                return Err(Error::Invalid("INVALID_CORE_UPDATE_ACTION"));
            },
        };
        let previous = self.core_state()?;
        let generation = match &previous {
            CoreState::Running { generation, .. } => *generation,
            _ => {
                return Err(Error::Invalid("CORE_UPDATE_REQUIRES_RUNNING"));
            },
        };
        let active = self.open_core_generation(generation)?;
        let served = active.profile_ids();
        if !contains_id(served.as_slice(), profile_id) {
            return Err(Error::Invalid("PROFILE_NOT_ACTIVE"));
        }
        if !core_generation_matches(current, active)? {
            return Err(Error::Invalid("CORE_CONFIG_CHANGED"));
        }
        let after = match applied {
            Applied::Refused(code) => {
                return Err(Error::Invalid(code));
            },
            Applied::Accepted { target, .. } => target,
        };
        let profiles = match &change {
            UpdateChange::RemoveProfile => crate::core_update::retain_without(
                served.as_slice(),
                profile_id,
            ),
            _ => served,
        };
        let before = share(&self.manifest);
        let secrets = crate::config_transaction::stage_list(request);
        self.put_secrets(secrets)?;
        Ok(
            Draft {
                plan_id: request.request_id,
                profile_id,
                change,
                before,
                after,
                previous,
                generation,
                profiles,
            },
        )
    }

    /// Draft the plan that lets a running core serve more profiles.
    pub fn prepare_core_expansion(
        &mut self,
        id: Uuid,
        expected_revision: u64,
        profiles: &[Uuid],
        required: Uuid,
        current: &Compiled,
        at: u64,
    ) -> (r: Result<Draft>)
        ensures
            plans_expansion(
                old(self)@,
                final(self)@,
                id,
                expected_revision,
                profiles@,
                required,
                *current,
                at,
                r,
            ),
    {
        if id.is_nil() {
            return Err(Error::Invalid("INVALID_REQUEST_ID"));
        }
        if !contains_id(profiles, required) {
            return Err(Error::Invalid("INVALID_CORE_REQUEST"));
        }
        let normalized = sorted(profiles);
        self.ensure_core_update_idle()?;
        self.recover_config_requests(at)?;
        if self.manifest.revision != expected_revision {
            return Err(Error::Invalid("STALE_MANIFEST_REVISION"));
        }
        let previous = self.core_state()?;
        let generation = match &previous {
            CoreState::Running { generation, .. } => *generation,
            _ => {
                return Err(Error::Invalid("CORE_UPDATE_REQUIRES_RUNNING"));
            },
        };
        let old = self.open_core_generation(generation)?;
        if !core_generation_matches(current, old)? {
            return Err(Error::Invalid("CORE_CONFIG_CHANGED"));
        }
        let served = old.profile_ids();
        let combined = union_of(served.as_slice(), normalized.as_slice());
        proof {
            ascending_len(served@);
            ascending_len(combined@);
            let a = served@.to_set();
            let b = profiles@.to_set();
            assert(combined@.to_set() == a.union(b));
            if b.subset_of(a) {
                assert(a.union(b) =~= a);
            } else {
                let x = choose|x: Uuid| b.contains(x) && !a.contains(x);
                assert(a.insert(x).subset_of(a.union(b)));
                vstd::set_lib::lemma_len_subset(a.insert(x), a.union(b));
            }
        }
        if combined.len() == served.len() {
            return Err(Error::Invalid("CORE_PROFILE_SET_UNCHANGED"));
        }
        if combined.len() > 1024 {
            return Err(Error::Invalid("CORE_PROFILE_LIMIT"));
        }
        Ok(
            Draft {
                plan_id: id,
                profile_id: required,
                change: UpdateChange::Expand { profiles: normalized },
                before: share(&self.manifest),
                after: share(&self.manifest),
                previous,
                generation,
                profiles: combined,
            },
        )
    }

    pub(crate) fn settle_core_request(
        &mut self,
        request: Uuid,
        encoded: &[u8],
        outcome: CoreOutcome,
        needed: bool,
        at: u64,
    ) -> (r: Result<()>)
        ensures
            settles(
                old(self)@,
                final(self)@,
                request,
                encoded@,
                outcome@,
                needed,
                at,
                r,
            ),
    {
        match self.find_core_request(request)? {
            None => {
                if needed {
                    return Err(Error::Invalid("CORE_UPDATE_REQUEST_MISMATCH"));
                }
                Ok(())
            },
            Some(place) => {
                if !text::same_bytes(
                    self.core_requests[place].digest.as_slice(),
                    digest(encoded).as_slice(),
                ) {
                    return Err(Error::Invalid("CORE_UPDATE_REQUEST_MISMATCH"));
                }
                if !crate::core_requests::is_unresolved(&self.core_requests[place].phase) {
                    return Ok(());
                }
                validate_outcome(&outcome, self.manifest.owner_sid.as_str())?;
                let accepted_at: u64 = self.core_requests[place].accepted_at;
                let completed_at: u64 = if at < accepted_at {
                    accepted_at
                } else {
                    at
                };
                let ghost records = self.core_requests@;
                let mut record = self.core_requests.remove(place);
                record.phase = CoreRequestPhase::Complete { outcome, completed_at };
                self.core_requests.insert(place, record);
                proof {
                    assert(self.core_requests@ =~= records.update(place as int, record));
                }
                Ok(())
            },
        }
    }

    /// Settle the receipts of the requests that prepared and executed the update named `id`.
    /// `prepare` and `apply` are the encodings of those two actions.
    pub fn resolve_core_update_request(
        &mut self,
        id: Uuid,
        exclude: Option<Uuid>,
        prepare: &[u8],
        apply: &[u8],
        at: u64,
    ) -> (r: Result<()>)
        ensures
            resolves(old(self)@, final(self)@, id, exclude, prepare@, apply@, at, r),
    {
        let plan = self.require_core_update(id)?;
        let prepared = CoreOutcome::Prepared { impact: self.core_update_impact(plan)? };
        if matches!(plan.phase, UpdatePhase::Prepared) {
            if exclude == Some(id) {
                return Ok(());
            }
            return self.settle_core_request(id, prepare, prepared, true, at);
        }
        // The execution is checked first, before any earlier receipt changes.
        let request = match plan.execution_request {
            Some(request) => request,
            None => {
                return Err(Error::Invalid("CORE_UPDATE_NOT_EXECUTED"));
            },
        };
        let outcome = match &plan.result {
            Some(outcome) => outcome.copy(),
            None => {
                return Err(Error::Invalid("CORE_UPDATE_RESULT_UNKNOWN"));
            },
        };
        let ghost start = self@;
        let ghost told = outcome@;
        let ghost answer = prepared@;
        proof {
            assert(resolution(start, id) == Ok::<
                (ImpactView, Option<(Uuid, OutcomeView)>),
                Error,
            >((answer->impact, Some((request, told)))));
            assert(answer == (OutcomeView::Prepared { impact: answer->impact }));
        }
        let first = if exclude == Some(request) {
            Ok(())
        } else {
            self.settle_core_request(request, apply, outcome, true, at)
        };
        let ghost middle = self@;
        proof {
            assert(first_settles(start, middle, exclude, request, apply@, told, at, first));
        }
        match first {
            Err(e) => {
                proof {
                    assert(first_settles(start, middle, exclude, request, apply@, told, at, Err(e)));
                    assert(then_settles(
                        middle,
                        Err(e),
                        middle,
                        id,
                        prepare@,
                        answer,
                        at,
                        Err(e),
                    ));
                    assert(both_settle(start, middle, id, exclude, request, prepare@, apply@, answer, told, at, Err(e)));

                }
                Err(e)
            },
            Ok(_) => {
                let result = self.settle_core_request(id, prepare, prepared, false, at);
                proof {
                    assert(first_settles(start, middle, exclude, request, apply@, told, at, Ok(())));
                    assert(then_settles(
                        middle,
                        Ok(()),
                        self@,
                        id,
                        prepare@,
                        answer,
                        at,
                        result,
                    ));
                    assert(both_settle(start, self@, id, exclude, request, prepare@, apply@, answer, told, at, result));

                }
                result
            },
        }
    }

    /// Publish a plan whose candidate was checked. Publication allows no stop; applying the plan
    /// needs its exact identifier. The requests of the plan that it replaces are settled first. `impact` is the
    /// encoding of what `core_update_impact` tells of the plan.
    pub fn publish_core_update(
        &mut self,
        plan: CoreUpdate,
        impact: &[u8],
        prepare: &[u8],
        apply: &[u8],
        at: u64,
    ) -> (r: Result<UpdateImpact>)
        ensures
            match idle(old(self)@) {
                Err(e) => r == Err::<UpdateImpact, Error>(e) && final(self)@ == old(self)@,
                Ok(_) => exists|middle: StoreView, first: Result<()>|
                    {
                        &&& #[trigger] predecessor_resolves(
                            old(self)@,
                            middle,
                            prepare@,
                            apply@,
                            at,
                            first,
                        )
                        &&& #[trigger] published(middle, first, final(self)@, plan, impact@.len(), at, r)
                    },
            },
    {
        self.ensure_core_update_idle()?;
        let ghost start = self@;
        let previous = match &self.update {
            Some(previous) => Some(previous.plan_id),
            None => None,
        };
        let first = match previous {
            Some(id) => self.resolve_core_update_request(id, None, prepare, apply, at),
            None => Ok(()),
        };
        let ghost middle = self@;
        proof {
            assert(predecessor_resolves(start, middle, prepare@, apply@, at, first));
        }
        match first {
            Err(e) => {
                proof {
                    assert(published(
                        middle,
                        Err(e),
                        self@,
                        plan,
                        impact@.len(),
                        at,
                        Err::<UpdateImpact, Error>(e),
                    ));
                }
                Err(e)
            },
            Ok(_) => {
                let result = self.write_plan(plan, impact, at);
                proof {
                    assert(published(middle, Ok(()), self@, plan, impact@.len(), at, result));
                }
                result
            },
        }
    }

    fn write_plan(&mut self, plan: CoreUpdate, encoded: &[u8], at: u64) -> (r: Result<UpdateImpact>)
        ensures
            published(old(self)@, Ok(()), final(self)@, plan, encoded@.len(), at, r),
    {
        self.recover_config_requests(at)?;
        self.validate_core_update(&plan)?;
        if !matches!(plan.phase, UpdatePhase::Prepared) {
            return Err(Error::Invalid("INVALID_CORE_UPDATE_PHASE"));
        }
        self.check_update_dependencies(&plan)?;
        let impact = self.core_update_impact(&plan)?;
        if encoded.len() > IMPACT_LIMIT {
            return Err(Error::Invalid("CORE_UPDATE_IMPACT_SIZE"));
        }
        self.update = Some(plan);
        Ok(impact)
    }

    /// Begin to switch the core to the plan's candidate, on behalf of a recorded request that asks
    /// for exactly that. `launches` says whether no launch is under way that relies on the core.
    pub fn start_core_update(
        &mut self,
        id: Uuid,
        execution_request: Uuid,
        apply: &[u8],
        launches: Result<()>,
        at: u64,
    ) -> (r: Result<&CoreUpdate>)
        ensures
            starts(old(self)@, final(self)@, id, execution_request, apply@, launches, at, r),
    {
        launches?;
        if execution_request.is_nil() {
            return Err(Error::Invalid("INVALID_REQUEST_ID"));
        }
        let matching = match self.find_core_request(execution_request)? {
            Some(place) => text::same_bytes(
                self.core_requests[place].digest.as_slice(),
                digest(apply).as_slice(),
            ) && matches!(self.core_requests[place].phase, CoreRequestPhase::Pending { .. }),
            None => false,
        };
        if !matching {
            return Err(Error::Invalid("CORE_UPDATE_REQUEST_MISMATCH"));
        }
        self.recover_config_requests(at)?;
        let plan = self.require_core_update(id)?;
        if !matches!(plan.phase, UpdatePhase::Prepared) {
            return Err(Error::Invalid("CORE_UPDATE_ALREADY_APPLIED"));
        }
        self.check_update_dependencies(plan)?;
        match &mut self.update {
            Some(plan) => {
                plan.phase = UpdatePhase::Switching;
                plan.execution_request = Some(execution_request);
            },
            None => {},
        }
        match &self.update {
            Some(plan) => Ok(plan),
            None => Err(Error::Invalid("CORE_UPDATE_PLAN_CHANGED")),
        }
    }
}

/// The first half of publishing: the requests of the plan that is replaced are settled.
pub open spec fn predecessor_resolves(
    before: StoreView,
    middle: StoreView,
    prepare: Seq<u8>,
    apply: Seq<u8>,
    at: u64,
    first: Result<()>,
) -> bool {
    match before.update {
        Some(previous) => resolves(
            before,
            middle,
            previous.plan_id,
            None,
            prepare,
            apply,
            at,
            first,
        ),
        None => middle == before && first == Ok::<(), Error>(()),
    }
}

/// The second half of publishing: interrupted edits are completed, the plan is checked against the
/// result, and only then recorded. `size` is that of the impact as it is written.
pub open spec fn published(
    middle: StoreView,
    first: Result<()>,
    after: StoreView,
    plan: CoreUpdate,
    size: nat,
    at: u64,
    result: Result<UpdateImpact>,
) -> bool {
    if first is Err {
        result == Err::<UpdateImpact, Error>(first->Err_0) && after == middle
    } else {
        let (store, recovery) = recovered(middle, at);
        if recovery is Err {
            result == Err::<UpdateImpact, Error>(recovery->Err_0) && after == store
        } else {
            match publishable(store, plan) {
                Err(e) => result == Err::<UpdateImpact, Error>(e) && after == store,
                Ok(impact) => if size > IMPACT_LIMIT {
                    result == invalid::<UpdateImpact>("CORE_UPDATE_IMPACT_SIZE") && after == store
                } else {
                    result matches Ok(told) && told@ == impact && after == (StoreView {
                        update: Some(plan),
                        ..store
                    })
                },
            }
        }
    }
}

/// Record the core's next state, and how that ended.
pub open spec fn moved(
    store: StoreView,
    expected: StateView,
    next: CoreState,
    compiled: Compiled,
    at: u64,
) -> (StoreView, Result<()>) {
    match idle(store) {
        Err(e) => (store, Err(e)),
        Ok(_) => {
            let (clean, recovery) = recovered(store, at);
            match recovery {
                Err(e) => (clean, Err(e)),
                Ok(_) => match transition_outcome(clean, expected, next@, compiled, false) {
                    Err(e) => (clean, Err(e)),
                    Ok(_) => (with_state(clean, next), Ok(())),
                },
            }
        },
    }
}

/// The core moves only from the state that the caller expects, and only along the steps that the journal allows:
/// from a stop or an outage to a start, from a start to the process of its generation, from either to an outage of
/// the same generation, and from all of these to a stop. After such a step the new state is recorded; after a
/// refusal the old one still is. With no update under way and no edit pending nothing else stands in the way.
pub proof fn core_moves_along_the_allowed_steps(
    store: StoreView,
    current: StateView,
    expected: StateView,
    next: CoreState,
    compiled: Compiled,
    at: u64,
)
    requires
        recorded_state(store) == Ok::<StateView, Error>(current),
        idle(store) is Ok,
        settled(store),
        state_validity(next@, store.manifest.owner_sid@) is Ok,
        state_generation(next@) matches Some(id) ==> (opened(store, id) matches Ok(generation) && (
        next@ is Starting ==> compiled_matches(compiled, generation) == Ok::<bool, Error>(true))),
    ensures
        ({
            let (end, result) = moved(store, expected, next, compiled, at);
            &&& expected != current ==> result == invalid::<()>("CORE_STATE_CHANGED")
            &&& expected == current ==> result == if allowed(current, next@) {
                Ok::<(), Error>(())
            } else {
                invalid("INVALID_CORE_STATE_TRANSITION")
            }
            &&& recorded_state(end) == Ok::<StateView, Error>(
                if result is Ok {
                    next@
                } else {
                    current
                },
            )
            &&& end.manifest == store.manifest && end.secrets == store.secrets
        }),
{
    settled_stores_recover(store, at);
}

/// What starting an update does and answers.
pub open spec fn starts(
    before: StoreView,
    after: StoreView,
    id: Uuid,
    execution_request: Uuid,
    apply: Seq<u8>,
    launches: Result<()>,
    at: u64,
    r: Result<&CoreUpdate>,
) -> bool {
    if launches is Err {
        (r matches Err(e) && launches == Err::<(), Error>(e)) && after == before
    } else if execution_request.bits == 0 {
        r == invalid::<&CoreUpdate>("INVALID_REQUEST_ID") && after == before
    } else {
        match executes(before, execution_request, apply) {
            Err(e) => r == Err::<&CoreUpdate, Error>(e) && after == before,
            Ok(_) => {
                let (store, recovery) = recovered(before, at);
                if recovery is Err {
                    (r matches Err(e) && recovery == Err::<(), Error>(e)) && after == store
                } else if startable(store, id) is Err {
                    (r matches Err(e) && startable(store, id) == Err::<(), Error>(e)) && after == store
                } else {
                    (r matches Ok(plan) && after.update == Some(*plan)) && after == (StoreView {
                        update: Some(
                            CoreUpdate {
                                phase: UpdatePhase::Switching,
                                execution_request: Some(execution_request),
                                ..store.update->0
                            },
                        ),
                        ..store
                    })
                }
            },
        }
    }
}

/// What planning an expansion does and answers.
pub open spec fn plans_expansion(
    before: StoreView,
    after: StoreView,
    id: Uuid,
    expected_revision: u64,
    profiles: Seq<Uuid>,
    required: Uuid,
    current: Compiled,
    at: u64,
    r: Result<Draft>,
) -> bool {
    if id.bits == 0 {
        r == invalid::<Draft>("INVALID_REQUEST_ID") && after == before
    } else if !profiles.contains(required) {
        r == invalid::<Draft>("INVALID_CORE_REQUEST") && after == before
    } else {
        match idle(before) {
            Err(e) => r == Err::<Draft, Error>(e) && after == before,
            Ok(_) => {
                let (store, recovery) = recovered(before, at);
                after == store && (if recovery is Err {
                    r == Err::<Draft, Error>(recovery->Err_0)
                } else {
                    match expandable(store, expected_revision, profiles, current) {
                        Err(e) => r == Err::<Draft, Error>(e),
                        Ok(_) => r matches Ok(draft) && expansion_draft(
                            draft,
                            store,
                            id,
                            profiles,
                            required,
                            current,
                        ),
                    }
                })
            },
        }
    }
}

/// What planning an update for an edit does and answers.
pub open spec fn plans_update(
    before: StoreView,
    after: StoreView,
    request: ConfigRequest,
    applied: Applied,
    current: Compiled,
    at: u64,
    r: Result<Draft>,
) -> bool {
    match idle(before) {
        Err(e) => r == Err::<Draft, Error>(e) && after == before,
        Ok(_) => {
            let (store, recovery) = recovered(before, at);
            let (secrets, put) = secrets_put(store.secrets, staged(request));
            if recovery is Err {
                r == Err::<Draft, Error>(recovery->Err_0) && after == store
            } else if plannable(store, request, applied, current) is Err {
                r == Err::<Draft, Error>(
                    plannable(store, request, applied, current)->Err_0,
                ) && after == store
            } else if put is Err {
                r == Err::<Draft, Error>(put->Err_0) && after == (StoreView {
                    secrets,
                    ..store
                })
            } else {
                r matches Ok(draft) && edit_draft(draft, store, request, applied, current)
                    && after == (StoreView { secrets, ..store })
            }
        },
    }
}

/// What recording a generation does and answers.
pub open spec fn generation_recorded(
    before: StoreView,
    after: StoreView,
    source: Manifest,
    generation: Uuid,
    ids: Seq<Uuid>,
    config: Vec<u8>,
    path: String,
    r: Result<()>,
) -> bool {
    &&& (after == (StoreView { generations: after.generations, ..before }))
    &&& (after.generations.len() == before.generations.len() + 1)
    &&& (after.generations.drop_last() == before.generations)
    &&& (({
        let made = after.generations.last();
        made.directory == generation && made.path == path && made.config == config
            && made.header.schema_version == 1 && made.header.store_id
            == before.manifest.store_id && made.header.generation == generation
            && made.header.digest@ == sha256(config@) && made.header.profiles@
            == header_profiles(source, ids)
    }))
    &&& (match r {
        Ok(_) => opened(after, generation) is Ok,
        Err(e) => opened(after, generation) == Err::<CoreGeneration, Error>(e),
    })
}

/// What making a generation of the configuration as it stands does and answers.
pub open spec fn generation_prepared(
    before: StoreView,
    after: StoreView,
    ids: Seq<Uuid>,
    config: Vec<u8>,
    root: Seq<char>,
    r: Result<Uuid>,
) -> bool {
    &&& (after == (StoreView { generations: after.generations, ..before }))
    &&& (after.generations.len() == before.generations.len() + 1)
    &&& (after.generations.drop_last() == before.generations)
    &&& (({
        let made = after.generations.last();
        let generation = made.header.generation;
        &&& generation.random() && made.directory == generation
        &&& made.path@ == config_place(root, generation)
        &&& made.config == config && made.header.schema_version == 1
        &&& made.header.store_id == before.manifest.store_id
        &&& made.header.digest@ == sha256(config@)
        &&& made.header.profiles@ == header_profiles(before.manifest, ids)
        &&& match r {
            Ok(id) => id == generation && opened(after, generation) is Ok,
            Err(e) => opened(after, generation) == Err::<CoreGeneration, Error>(e),
        }
    }))
}

/// The plan that a draft becomes.
pub open spec fn draft_completed(
    draft: Draft,
    candidate: Uuid,
    before_config: Compiled,
    after_config: Compiled,
    replay: Option<Vec<u8>>,
    r: CoreUpdate,
) -> bool {
    r == (CoreUpdate {
        schema_version: 2,
        store_id: draft.before.store_id,
        plan_id: draft.plan_id,
        profile_id: draft.profile_id,
        change: draft.change,
        before: draft.before,
        after: draft.after,
        previous: draft.previous,
        candidate: if draft.profiles@.len() == 0 {
            draft.generation
        } else {
            candidate
        },
        phase: UpdatePhase::Prepared,
        execution_request: None,
        result: None,
        before_config,
        after_config,
        replay,
    })
}

} // verus!
