//! A checked, immutable proposal is distinct from permission to stop a core. There is one active
//! switch per store. Interrupted side effects require reconciliation; opening the store never
//! starts or ends a process on its own.
use std::sync::Arc;
use vstd::prelude::*;
use vstd::string::*;
use crate::core_requests::{CoreOutcome, OutcomeView, ImpactView, UpdateImpact};
use crate::core_state::{Compiled, CoreGeneration, CoreRecord, CoreState, StateView, compiled_matches, core_generation_matches, opened, profile_ids, recorded_state, state_generation, state_validity, transition_outcome, validate_state};
use crate::error::{Error, Result, invalid};
use crate::ids::Uuid;
use crate::model::{Instance, Manifest, NetworkBinding, Profile, ProxySource, ascending, ascending_unique, contains_id, copy_ids, copy_nodes, find_profile, first_profile, node_views, recordable, same_ids, sorted};
use crate::store::{Store, StoreView, share};
use crate::text;

verus! {

/// How far an update has come. An update that is switching, committing or restoring is active and
/// keeps every other change of the store waiting.
#[derive(Clone, Copy, Debug, PartialEq, Eq, Structural)]
pub enum UpdatePhase {
    Prepared,
    Switching,
    Committing,
    Committed,
    Restoring,
    Restored { core_down: bool },
}

/// What an update changes.
#[derive(Debug)]
pub enum UpdateChange {
    EditProfile,
    RemoveProfile,
    Expand { profiles: Vec<Uuid> },
    RefreshSubscription,
    SelectSubscriptionNode,
}

impl Default for UpdateChange {
    fn default() -> (r: UpdateChange)
        ensures
            r == UpdateChange::EditProfile,
    {
        UpdateChange::EditProfile
    }
}

/// A plan to move a running core from one configuration to another.
///
/// The last three fields are what the rest of the program computes from the plan: the core
/// configuration that `before` compiles to for the profiles of the old generation, the one that
/// `after` compiles to for those of the candidate, and the encoding of the configuration that
/// the change makes of `before`, if it applies.
#[derive(Debug)]
pub struct CoreUpdate {
    pub schema_version: u32,
    pub store_id: Uuid,
    pub plan_id: Uuid,
    pub profile_id: Uuid,
    pub change: UpdateChange,
    pub before: Arc<Manifest>,
    pub after: Arc<Manifest>,
    pub previous: CoreState,
    pub candidate: Uuid,
    pub phase: UpdatePhase,
    pub execution_request: Option<Uuid>,
    pub result: Option<CoreOutcome>,
    pub before_config: Compiled,
    pub after_config: Compiled,
    pub replay: Option<Vec<u8>>,
}

/// The generation that was running when the plan was made.
pub open spec fn old_of(plan: CoreUpdate) -> Result<Uuid> {
    match plan.previous {
        CoreState::Running { generation, .. } => Ok(generation),
        _ => invalid("INVALID_CORE_UPDATE_RECORD"),
    }
}

/// The plan removes the last profile, so that the old generation is kept solely for rollback.
pub open spec fn last_removal(plan: CoreUpdate) -> bool {
    plan.change is RemoveProfile && old_of(plan) == Ok::<Uuid, Error>(plan.candidate)
}

/// Phases in which an update keeps other changes waiting.
pub open spec fn is_active(phase: UpdatePhase) -> bool {
    phase == UpdatePhase::Switching || phase == UpdatePhase::Committing || phase
        == UpdatePhase::Restoring
}

impl CoreUpdate {
    /// Whether the plan removes the last profile.
    pub fn removes_last(&self) -> (r: bool)
        ensures
            r == last_removal(*self),
    {
        match &self.change {
            UpdateChange::RemoveProfile => match &self.previous {
                CoreState::Running { generation, .. } => *generation == self.candidate,
                _ => false,
            },
            _ => false,
        }
    }

    /// The generation that was running when the plan was made.
    pub fn old_generation(&self) -> (r: Result<Uuid>)
        ensures
            r == old_of(*self),
    {
        match &self.previous {
            CoreState::Running { generation, .. } => Ok(*generation),
            _ => Err(Error::Invalid("INVALID_CORE_UPDATE_RECORD")),
        }
    }

    /// Whether the plan keeps other changes waiting.
    pub fn active(&self) -> (r: bool)
        ensures
            r == is_active(self.phase),
    {
        matches!(
            self.phase,
            UpdatePhase::Switching | UpdatePhase::Committing | UpdatePhase::Restoring
        )
    }
}

/// An edit of a subscription, rebuilt from the two snapshots of a plan. `nodes` holds the nodes'
/// encodings.
#[derive(Debug)]
pub enum SubscriptionEdit {
    Refresh {
        expected_source_revision: u64,
        expected_url_secret_id: Uuid,
        nodes: Vec<Vec<u8>>,
    },
    Select { expected_source_revision: u64, node_id: Uuid },
}

/// The contents of a subscription edit.
pub enum EditView {
    Refresh {
        expected_source_revision: u64,
        expected_url_secret_id: Uuid,
        nodes: Seq<Seq<u8>>,
    },
    Select { expected_source_revision: u64, node_id: Uuid },
}

impl View for SubscriptionEdit {
    type V = EditView;

    open spec fn view(&self) -> EditView {
        match self {
            SubscriptionEdit::Refresh {
                expected_source_revision,
                expected_url_secret_id,
                nodes,
            } => EditView::Refresh {
                expected_source_revision: *expected_source_revision,
                expected_url_secret_id: *expected_url_secret_id,
                nodes: node_views(nodes@),
            },
            SubscriptionEdit::Select { expected_source_revision, node_id } => EditView::Select {
                expected_source_revision: *expected_source_revision,
                node_id: *node_id,
            },
        }
    }
}

/// The subscription edit that the two snapshots of a plan stand for. A plan of another kind has
/// none; a plan whose profile is missing or not a subscription is damaged.
pub open spec fn subscription(plan: CoreUpdate) -> Result<Option<EditView>> {
    if !(plan.change is RefreshSubscription) && !(plan.change is SelectSubscriptionNode) {
        Ok(None)
    } else {
        match (
            first_profile(plan.before.profiles@, plan.profile_id),
            first_profile(plan.after.profiles@, plan.profile_id),
        ) {
            (Some(i), Some(j)) => match plan.before.profiles@[i].source {
                ProxySource::Subscription { revision, url_secret_id, .. } => {
                    let after = plan.after.profiles@[j];
                    if plan.change is SelectSubscriptionNode {
                        Ok(
                            Some(
                                EditView::Select {
                                    expected_source_revision: revision,
                                    node_id: after.selected_node_id,
                                },
                            ),
                        )
                    } else {
                        match after.source {
                            ProxySource::Subscription { nodes, .. } => Ok(
                                Some(
                                    EditView::Refresh {
                                        expected_source_revision: revision,
                                        expected_url_secret_id: url_secret_id,
                                        nodes: node_views(nodes@),
                                    },
                                ),
                            ),
                            _ => invalid("INVALID_CORE_UPDATE_RECORD"),
                        }
                    }
                },
                _ => invalid("INVALID_CORE_UPDATE_RECORD"),
            },
            _ => invalid("INVALID_CORE_UPDATE_RECORD"),
        }
    }
}

/// Rebuild the subscription edit that the two snapshots of a plan stand for. Replaying it then
/// shows that no unrelated field was changed.
pub fn subscription_edit(plan: &CoreUpdate) -> (r: Result<Option<SubscriptionEdit>>)
    ensures
        match (r, subscription(*plan)) {
            (Ok(Some(edit)), Ok(Some(view))) => edit@ == view,
            (Ok(None), Ok(None)) => true,
            (Err(e), Err(f)) => e == f,
            _ => false,
        },
{
    let select = match &plan.change {
        UpdateChange::SelectSubscriptionNode => true,
        UpdateChange::RefreshSubscription => false,
        _ => {
            return Ok(None);
        },
    };
    let i: usize = match find_profile(plan.before.profiles.as_slice(), plan.profile_id) {
        Some(i) => i,
        None => {
            return Err(Error::Invalid("INVALID_CORE_UPDATE_RECORD"));
        },
    };
    let j: usize = match find_profile(plan.after.profiles.as_slice(), plan.profile_id) {
        Some(j) => j,
        None => {
            return Err(Error::Invalid("INVALID_CORE_UPDATE_RECORD"));
        },
    };
    let after = &plan.after.profiles[j];
    match &plan.before.profiles[i].source {
        ProxySource::Subscription { revision, url_secret_id, .. } => {
            if select {
                return Ok(
                    Some(
                        SubscriptionEdit::Select {
                            expected_source_revision: *revision,
                            node_id: after.selected_node_id,
                        },
                    ),
                );
            }
            match &after.source {
                ProxySource::Subscription { nodes, .. } => Ok(
                    Some(
                        SubscriptionEdit::Refresh {
                            expected_source_revision: *revision,
                            expected_url_secret_id: *url_secret_id,
                            nodes: copy_nodes(nodes.as_slice()),
                        },
                    ),
                ),
                _ => Err(Error::Invalid("INVALID_CORE_UPDATE_RECORD")),
            }
        },
        _ => Err(Error::Invalid("INVALID_CORE_UPDATE_RECORD")),
    }
}

/// The fixed parts of a plan fit the store.
pub open spec fn record_sound(plan: CoreUpdate, store_id: Uuid) -> bool {
    (plan.schema_version == 2 || (plan.schema_version == 1 && plan.change is EditProfile))
        && plan.store_id == store_id && plan.plan_id.bits != 0 && plan.profile_id.bits != 0
        && plan.candidate.bits != 0
}

/// The phase of a plan agrees with its execution request and its result.
pub open spec fn phase_sound(plan: CoreUpdate, owner: Seq<char>) -> bool {
    let executed = plan.execution_request is Some && plan.execution_request->0.bits != 0;
    match plan.phase {
        UpdatePhase::Prepared => plan.result is None && plan.execution_request is None,
        UpdatePhase::Switching | UpdatePhase::Committing | UpdatePhase::Restoring => plan.result
            is None && executed,
        UpdatePhase::Committed => executed && match plan.result {
            Some(CoreOutcome::Reconfigured { generation, revision, process }) => !(plan.change
                is RemoveProfile) && generation == plan.candidate && revision
                == plan.after.revision && recordable(process@, owner),
            Some(CoreOutcome::ProfileRemoved { profile_id, revision }) => plan.change
                is RemoveProfile && profile_id == plan.profile_id && revision
                == plan.after.revision,
            _ => false,
        },
        UpdatePhase::Restored { core_down } => executed && match plan.result {
            Some(CoreOutcome::Restored { core_down: result_down }) => core_down == result_down,
            _ => false,
        },
    }
}

/// Identifiers other than `id`, in order.
pub open spec fn without(ids: Seq<Uuid>, id: Uuid) -> Seq<Uuid>
    decreases ids.len(),
{
    if ids.len() == 0 {
        ids
    } else if ids.last() == id {
        without(ids.drop_last(), id)
    } else {
        without(ids.drop_last(), id).push(ids.last())
    }
}

pub(crate) fn retain_without(ids: &[Uuid], id: Uuid) -> (r: Vec<Uuid>)
    ensures
        r@ == without(ids@, id),
{
    let mut out: Vec<Uuid> = Vec::new();
    let mut i: usize = 0;
    proof {
        assert(out@ =~= ids@.take(0));
    }
    while i < ids.len()
        invariant
            i <= ids.len(),
            out@ == without(ids@.take(i as int), id),
        decreases ids.len() - i,
    {
        proof {
            assert(ids@.take(i + 1).drop_last() =~= ids@.take(i as int));
        }
        if ids[i] != id {
            out.push(ids[i]);
        }
        i += 1;
    }
    proof {
        assert(ids@.take(ids@.len() as int) =~= ids@);
    }
    out
}

/// Identifiers that are not among `others`, in order.
pub open spec fn not_among(ids: Seq<Uuid>, others: Seq<Uuid>) -> Seq<Uuid>
    decreases ids.len(),
{
    if ids.len() == 0 {
        ids
    } else if others.contains(ids.last()) {
        not_among(ids.drop_last(), others)
    } else {
        not_among(ids.drop_last(), others).push(ids.last())
    }
}

fn retain_not_among(ids: &[Uuid], others: &[Uuid]) -> (r: Vec<Uuid>)
    ensures
        r@ == not_among(ids@, others@),
{
    let mut out: Vec<Uuid> = Vec::new();
    let mut i: usize = 0;
    proof {
        assert(out@ =~= ids@.take(0));
    }
    while i < ids.len()
        invariant
            i <= ids.len(),
            out@ == not_among(ids@.take(i as int), others@),
        decreases ids.len() - i,
    {
        proof {
            assert(ids@.take(i + 1).drop_last() =~= ids@.take(i as int));
        }
        if !contains_id(others, ids[i]) {
            out.push(ids[i]);
        }
        i += 1;
    }
    proof {
        assert(ids@.take(ids@.len() as int) =~= ids@);
    }
    out
}

/// The identifiers of the instances that reach the network through one of `profiles`.
pub open spec fn bound_to(instances: Seq<Instance>, profiles: Seq<Uuid>) -> Seq<Uuid>
    decreases instances.len(),
{
    if instances.len() == 0 {
        Seq::empty()
    } else {
        let front = bound_to(instances.drop_last(), profiles);
        match instances.last().network {
            NetworkBinding::Profile { profile_id } => if profiles.contains(profile_id) {
                front.push(instances.last().id)
            } else {
                front
            },
            _ => front,
        }
    }
}

fn bound_instances(instances: &[Instance], profiles: &[Uuid]) -> (r: Vec<Uuid>)
    ensures
        r@ == bound_to(instances@, profiles@),
{
    let mut out: Vec<Uuid> = Vec::new();
    let mut i: usize = 0;
    proof {
        assert(out@ =~= bound_to(instances@.take(0), profiles@));
    }
    while i < instances.len()
        invariant
            i <= instances.len(),
            out@ == bound_to(instances@.take(i as int), profiles@),
        decreases instances.len() - i,
    {
        proof {
            assert(instances@.take(i + 1).drop_last() =~= instances@.take(i as int));
        }
        match instances[i].network {
            NetworkBinding::Profile { profile_id } => {
                if contains_id(profiles, profile_id) {
                    out.push(instances[i].id);
                }
            },
            _ => {},
        }
        i += 1;
    }
    proof {
        assert(instances@.take(instances@.len() as int) =~= instances@);
    }
    out
}

/// What replaying the change on `before` gives is `after`.
pub open spec fn replay_matches(plan: CoreUpdate) -> bool {
    plan.replay matches Some(bytes) && bytes@ == plan.after.encoded@
}

/// The encodings of profiles, in order.
pub open spec fn profile_encodings(profiles: Seq<Profile>) -> Seq<Seq<u8>> {
    profiles.map_values(|profile: Profile| profile.encoded@)
}

/// `after` is `before` with one manual profile replaced. The new profile differs from the old one
/// in its one node and its revision, which is the next; where it listens, its name and its selected
/// node stay.
pub open spec fn manual_sound(plan: CoreUpdate) -> bool {
    match (
        first_profile(plan.before.profiles@, plan.profile_id),
        first_profile(plan.after.profiles@, plan.profile_id),
    ) {
        (Some(i), Some(j)) => {
            let old = plan.before.profiles@[i];
            let new = plan.after.profiles@[j];
            (old.source matches ProxySource::Manual { nodes } && nodes@.len() == 1) && (
            new.source matches ProxySource::Manual { nodes } && nodes@.len() == 1) && new.endpoint
                == old.endpoint && new.name@ == old.name@ && new.selected_node_id
                == old.selected_node_id && old.revision + 1 == new.revision && plan.before.rest@
                == plan.after.rest@ && profile_encodings(plan.before.profiles@).update(
                i,
                new.encoded@,
            ) == profile_encodings(plan.after.profiles@)
        },
        _ => false,
    }
}

/// The change that a plan names is the difference between its two snapshots and between its two
/// generations, and nothing else differs.
pub open spec fn change_sound(plan: CoreUpdate, old_ids: Seq<Uuid>, candidate_ids: Seq<Uuid>) -> bool {
    let next = plan.before.revision + 1 == plan.after.revision;
    match plan.change {
        UpdateChange::RemoveProfile => {
            let retained = without(old_ids, plan.profile_id);
            old_ids.contains(plan.profile_id) && (if retained.len() == 0 {
                last_removal(plan)
            } else {
                retained == candidate_ids && !last_removal(plan)
            }) && next && replay_matches(plan)
        },
        UpdateChange::Expand { profiles } => profiles@.contains(plan.profile_id) && ascending(
            profiles@,
        ) && candidate_ids.to_set()
            == old_ids.to_set().union(profiles@.to_set()) && old_ids.len() < candidate_ids.len()
            <= 1024 && plan.before.encoded@ == plan.after.encoded@ && plan.before.revision
            == plan.after.revision,
        UpdateChange::EditProfile => old_ids == candidate_ids && next && old_ids.contains(
            plan.profile_id,
        ) && manual_sound(plan),
        _ => old_ids == candidate_ids && next && old_ids.contains(plan.profile_id) && subscription(
            plan,
        ) is Ok && replay_matches(plan),
    }
}

/// Why a plan may not be used.
pub open spec fn update_validity(store: StoreView, plan: CoreUpdate) -> Result<()> {
    match state_validity(plan.previous@, store.manifest.owner_sid@) {
        Err(e) => Err(e),
        Ok(_) => if !record_sound(plan, store.manifest.store_id) || !phase_sound(
            plan,
            store.manifest.owner_sid@,
        ) {
            invalid("INVALID_CORE_UPDATE_RECORD")
        } else if plan.before.validity() is Err {
            plan.before.validity()
        } else if plan.after.validity() is Err {
            plan.after.validity()
        } else {
            match old_of(plan) {
                Err(e) => Err(e),
                Ok(old_id) => match (opened(store, old_id), opened(store, plan.candidate)) {
                    (Err(e), _) => Err(e),
                    (_, Err(e)) => Err(e),
                    (Ok(old), Ok(candidate)) => generations_validity(plan, old, candidate),
                },
            }
        },
    }
}

/// Why the generations of a plan do not fit its snapshots and its change.
pub open spec fn generations_validity(
    plan: CoreUpdate,
    old: CoreGeneration,
    candidate: CoreGeneration,
) -> Result<()> {
    match compiled_matches(plan.before_config, old) {
        Err(e) => Err(e),
        Ok(false) => invalid("CORE_UPDATE_GENERATION_MISMATCH"),
        Ok(true) => {
            let fits = if last_removal(plan) {
                Ok(true)
            } else {
                compiled_matches(plan.after_config, candidate)
            };
            match fits {
                Err(e) => Err(e),
                Ok(false) => invalid("CORE_UPDATE_GENERATION_MISMATCH"),
                Ok(true) => if change_sound(
                    plan,
                    profile_ids(old.header.profiles@),
                    profile_ids(candidate.header.profiles@),
                ) {
                    Ok(())
                } else {
                    invalid("INVALID_CORE_UPDATE_RECORD")
                },
            }
        },
    }
}

fn check_phase(plan: &CoreUpdate, owner: &str) -> (r: bool)
    ensures
        r == phase_sound(*plan, owner@),
{
    let executed = match plan.execution_request {
        Some(id) => !id.is_nil(),
        None => false,
    };
    match plan.phase {
        UpdatePhase::Prepared => plan.result.is_none() && plan.execution_request.is_none(),
        UpdatePhase::Switching | UpdatePhase::Committing | UpdatePhase::Restoring => {
            plan.result.is_none() && executed
        },
        UpdatePhase::Committed => executed && match &plan.result {
            Some(CoreOutcome::Reconfigured { generation, revision, process }) => {
                !matches!(plan.change, UpdateChange::RemoveProfile) && *generation
                    == plan.candidate && *revision == plan.after.revision
                    && process.is_recordable(owner)
            },
            Some(CoreOutcome::ProfileRemoved { profile_id, revision }) => {
                matches!(plan.change, UpdateChange::RemoveProfile) && *profile_id
                    == plan.profile_id && *revision == plan.after.revision
            },
            _ => false,
        },
        UpdatePhase::Restored { core_down } => executed && match &plan.result {
            Some(CoreOutcome::Restored { core_down: result_down }) => core_down == *result_down,
            _ => false,
        },
    }
}

fn check_replay(plan: &CoreUpdate) -> (r: bool)
    ensures
        r == replay_matches(*plan),
{
    match &plan.replay {
        Some(bytes) => text::same_bytes(bytes.as_slice(), plan.after.encoded.as_slice()),
        None => false,
    }
}

fn one_manual_node(source: &ProxySource) -> (r: bool)
    ensures
        r == (*source matches ProxySource::Manual { nodes } && nodes@.len() == 1),
{
    match source {
        ProxySource::Manual { nodes } => nodes.len() == 1,
        _ => false,
    }
}

fn check_manual(plan: &CoreUpdate) -> (r: bool)
    ensures
        r == manual_sound(*plan),
{
    let i: usize = match find_profile(plan.before.profiles.as_slice(), plan.profile_id) {
        Some(i) => i,
        None => {
            return false;
        },
    };
    let j: usize = match find_profile(plan.after.profiles.as_slice(), plan.profile_id) {
        Some(j) => j,
        None => {
            return false;
        },
    };
    let old = &plan.before.profiles[i];
    let new = &plan.after.profiles[j];
    if !one_manual_node(&old.source) || !one_manual_node(&new.source) || new.endpoint
        != old.endpoint || new.selected_node_id != old.selected_node_id || old.revision
        == u64::MAX || old.revision + 1 != new.revision || !text::same(
        new.name.as_str(),
        old.name.as_str(),
    ) || !text::same_bytes(plan.before.rest.as_slice(), plan.after.rest.as_slice()) {
        return false;
    }
    let ghost expected = profile_encodings(plan.before.profiles@).update(i as int, new.encoded@);
    let ghost actual = profile_encodings(plan.after.profiles@);
    if plan.before.profiles.len() != plan.after.profiles.len() {
        proof {
            assert(expected.len() != actual.len());
        }
        return false;
    }
    let mut k: usize = 0;
    while k < plan.before.profiles.len()
        invariant
            k <= plan.before.profiles.len(),
            plan.before.profiles.len() == plan.after.profiles.len(),
            i < plan.before.profiles.len(),
            j < plan.after.profiles.len(),
            *old == plan.before.profiles@[i as int],
            *new == plan.after.profiles@[j as int],
            first_profile(plan.before.profiles@, plan.profile_id) == Some(i as int),
            first_profile(plan.after.profiles@, plan.profile_id) == Some(j as int),
            expected == profile_encodings(plan.before.profiles@).update(i as int, new.encoded@),
            actual == profile_encodings(plan.after.profiles@),
            forall|m: int| 0 <= m < k ==> expected[m] == actual[m],
        decreases plan.before.profiles.len() - k,
    {
        let wanted = if k == i {
            &new.encoded
        } else {
            &plan.before.profiles[k].encoded
        };
        proof {
            assert(wanted@ == expected[k as int]);
        }
        if !text::same_bytes(wanted.as_slice(), plan.after.profiles[k].encoded.as_slice()) {
            proof {
                assert(expected[k as int] != actual[k as int]);
            }
            return false;
        }
        k += 1;
    }
    proof {
        assert(expected =~= actual);
    }
    true
}

fn check_expansion(old_ids: &[Uuid], profiles: &[Uuid], candidate_ids: &[Uuid]) -> (r: bool)
    requires
        ascending(candidate_ids@),
    ensures
        r == (ascending(profiles@) && candidate_ids@.to_set() == old_ids@.to_set().union(
            profiles@.to_set(),
        ) && old_ids@.len() < candidate_ids@.len() <= 1024),
{
    let normalized = sorted(profiles);
    proof {
        if ascending(profiles@) {
            ascending_unique(normalized@, profiles@);
        }
    }
    if !same_ids(normalized.as_slice(), profiles) {
        return false;
    }
    let combined = union_of(old_ids, profiles);
    proof {
        if combined@.to_set() == candidate_ids@.to_set() {
            ascending_unique(combined@, candidate_ids@);
        }
    }
    same_ids(combined.as_slice(), candidate_ids) && candidate_ids.len() > old_ids.len()
        && candidate_ids.len() <= 1024
}

/// The members of two sequences of identifiers in ascending order, each once.
pub fn union_of(a: &[Uuid], b: &[Uuid]) -> (r: Vec<Uuid>)
    ensures
        ascending(r@),
        r@.to_set() == a@.to_set().union(b@.to_set()),
{
    let mut all = copy_ids(a);
    let mut i: usize = 0;
    proof {
        assert(all@ =~= a@ + b@.take(0));
    }
    while i < b.len()
        invariant
            i <= b.len(),
            all@ == a@ + b@.take(i as int),
        decreases b.len() - i,
    {
        all.push(b[i]);
        i += 1;
        proof {
            assert(all@ =~= a@ + b@.take(i as int));
        }
    }
    proof {
        assert(b@.take(b@.len() as int) =~= b@);
        assert forall|x: Uuid| all@.contains(x) <==> (a@.contains(x) || b@.contains(x)) by {
            if a@.contains(x) {
                let k = choose|k: int| 0 <= k < a@.len() && a@[k] == x;
                assert(all@[k] == x);
            }
            if b@.contains(x) {
                let k = choose|k: int| 0 <= k < b@.len() && b@[k] == x;
                assert(all@[a@.len() + k] == x);
            }
            if all@.contains(x) {
                let k = choose|k: int| 0 <= k < all@.len() && all@[k] == x;
                if k < a@.len() {
                    assert(a@[k] == x);
                } else {
                    assert(b@[k - a@.len()] == x);
                }
            }
        }
        assert(all@.to_set() =~= a@.to_set().union(b@.to_set()));
    }
    sorted(all.as_slice())
}

fn check_change(plan: &CoreUpdate, old_ids: &[Uuid], candidate_ids: &[Uuid]) -> (r: bool)
    requires
        ascending(candidate_ids@),
    ensures
        r == change_sound(*plan, old_ids@, candidate_ids@),
{
    let next = plan.before.revision < u64::MAX && plan.before.revision + 1 == plan.after.revision;
    match &plan.change {
        UpdateChange::RemoveProfile => {
            let retained = retain_without(old_ids, plan.profile_id);
            let fits = if retained.len() == 0 {
                plan.removes_last()
            } else {
                same_ids(retained.as_slice(), candidate_ids) && !plan.removes_last()
            };
            contains_id(old_ids, plan.profile_id) && fits && next && check_replay(plan)
        },
        UpdateChange::Expand { profiles } => contains_id(profiles.as_slice(), plan.profile_id)
            && check_expansion(old_ids, profiles.as_slice(), candidate_ids) && plan.before.same(
            &plan.after,
        ) && plan.before.revision == plan.after.revision,
        UpdateChange::EditProfile => same_ids(old_ids, candidate_ids) && next && contains_id(
            old_ids,
            plan.profile_id,
        ) && check_manual(plan),
        _ => same_ids(old_ids, candidate_ids) && next && contains_id(old_ids, plan.profile_id)
            && subscription_edit(plan).is_ok() && check_replay(plan),
    }
}

/// Whether the store may take on other changes.
pub open spec fn idle(store: StoreView) -> Result<()> {
    match store.update {
        None => Ok(()),
        Some(plan) => match update_validity(store, plan) {
            Err(e) => Err(e),
            Ok(_) => if is_active(plan.phase) {
                invalid("CORE_RECONFIGURATION_PENDING")
            } else {
                Ok(())
            },
        },
    }
}

/// The recorded plan is usable and is the one named `id`.
pub open spec fn required(store: StoreView, id: Uuid) -> Result<()> {
    match store.update {
        None => invalid("CORE_UPDATE_PLAN_CHANGED"),
        Some(plan) => match update_validity(store, plan) {
            Err(e) => Err(e),
            Ok(_) => if plan.plan_id == id {
                Ok(())
            } else {
                invalid("CORE_UPDATE_PLAN_CHANGED")
            },
        },
    }
}

/// The configuration and the core are those that the plan was made for.
pub open spec fn dependencies(store: StoreView, plan: CoreUpdate) -> Result<()> {
    if store.manifest.encoded@ != plan.before.encoded@ {
        invalid("CORE_UPDATE_PLAN_STALE")
    } else {
        match recorded_state(store) {
            Err(e) => Err(e),
            Ok(state) => if state == plan.previous@ {
                Ok(())
            } else {
                invalid("CORE_UPDATE_PLAN_STALE")
            },
        }
    }
}

/// The store with the recorded plan in another phase.
pub open spec fn in_phase(store: StoreView, phase: UpdatePhase) -> StoreView {
    StoreView { update: Some(CoreUpdate { phase, ..store.update->0 }), ..store }
}

/// What a plan will do to profiles and instances.
pub open spec fn impact_of(store: StoreView, plan: CoreUpdate) -> Result<ImpactView> {
    match old_of(plan) {
        Err(e) => Err(e),
        Ok(previous_generation) => match (
            opened(store, previous_generation),
            opened(store, plan.candidate),
        ) {
            (Err(e), _) => Err(e),
            (_, Err(e)) => Err(e),
            (Ok(active), Ok(candidate)) => {
                let affected_profiles = profile_ids(active.header.profiles@);
                Ok(
                    ImpactView {
                        plan_id: plan.plan_id,
                        manifest_revision: plan.before.revision,
                        previous_generation,
                        changed_profile: plan.profile_id,
                        added_profiles: not_among(
                            profile_ids(candidate.header.profiles@),
                            affected_profiles,
                        ),
                        removed_profiles: if plan.change is RemoveProfile {
                            seq![plan.profile_id]
                        } else {
                            seq![]
                        },
                        affected_profiles,
                        bound_instances: bound_to(plan.before.instances@, affected_profiles),
                    },
                )
            },
        },
    }
}

/// The runtime journal's step is one that the plan may take: a process of the generation that the
/// phase leads to, and a stop only where the last profile goes.
pub open spec fn step_fits(plan: CoreUpdate, next: StateView) -> Result<()> {
    let target = match plan.phase {
        UpdatePhase::Switching => Ok(plan.candidate),
        UpdatePhase::Restoring => old_of(plan),
        _ => invalid("INVALID_CORE_UPDATE_PHASE"),
    };
    match target {
        Err(e) => Err(e),
        Ok(generation) => match next {
            StateView::Starting { generation: g } => if g != generation {
                invalid("CORE_UPDATE_GENERATION_MISMATCH")
            } else {
                Ok(())
            },
            StateView::Running { generation: g, .. } => if g != generation {
                invalid("CORE_UPDATE_GENERATION_MISMATCH")
            } else {
                Ok(())
            },
            StateView::Stopped => if !last_removal(plan) || plan.phase != UpdatePhase::Switching {
                invalid("INVALID_CORE_UPDATE_PHASE")
            } else {
                Ok(())
            },
            StateView::Down { .. } => Ok(()),
        },
    }
}

/// What a step of an update comes to.
pub open spec fn update_transition(
    store: StoreView,
    id: Uuid,
    expected: StateView,
    next: StateView,
    compiled: Compiled,
) -> Result<()> {
    match required(store, id) {
        Err(e) => Err(e),
        Ok(_) => match step_fits(store.update->0, next) {
            Err(e) => Err(e),
            Ok(_) => transition_outcome(store, expected, next, compiled, true),
        },
    }
}

/// The store once `next` is recorded.
pub open spec fn with_state(store: StoreView, next: CoreState) -> StoreView {
    StoreView {
        core: Some(
            CoreRecord { schema_version: 1, store_id: store.manifest.store_id, state: next },
        ),
        ..store
    }
}

/// Whether an update may be committed: its new core runs (or, where the last profile goes, the
/// core is stopped), and the configuration is one of the plan's two.
pub open spec fn committable(store: StoreView, id: Uuid) -> Result<()> {
    match required(store, id) {
        Err(e) => Err(e),
        Ok(_) => {
            let plan = store.update->0;
            let before = store.manifest.encoded@ == plan.before.encoded@;
            let after = store.manifest.encoded@ == plan.after.encoded@;
            if plan.phase != UpdatePhase::Switching && plan.phase != UpdatePhase::Committing {
                invalid("INVALID_CORE_UPDATE_PHASE")
            } else {
                match recorded_state(store) {
                    Err(e) => Err(e),
                    Ok(state) => if !(if last_removal(plan) {
                        state == StateView::Stopped
                    } else {
                        state is Running && state_generation(state) == Some(plan.candidate)
                    }) {
                        invalid("CORE_UPDATE_NOT_RUNNING")
                    } else if !before && !after {
                        invalid("CORE_UPDATE_CONFIG_CONFLICT")
                    } else if plan.phase == UpdatePhase::Switching && !before {
                        invalid("CORE_UPDATE_CONFIG_CONFLICT")
                    } else {
                        Ok(())
                    },
                }
            }
        },
    }
}

/// The configuration once an update is committed: the plan's second snapshot, unless it already
/// was in place.
pub open spec fn committed_manifest(store: StoreView) -> Manifest {
    let plan = store.update->0;
    if store.manifest.encoded@ == plan.after.encoded@ {
        store.manifest
    } else {
        *plan.after
    }
}

/// What a committed update is answered with.
pub open spec fn commit_outcome(plan: CoreUpdate, state: StateView) -> OutcomeView {
    if plan.change is RemoveProfile {
        OutcomeView::ProfileRemoved { profile_id: plan.profile_id, revision: plan.after.revision }
    } else {
        OutcomeView::Reconfigured {
            generation: plan.candidate,
            process: match state {
                StateView::Running { process, .. } => process,
                _ => arbitrary(),
            },
            revision: plan.after.revision,
        }
    }
}

/// The plan of `after` is that of `before` with its phase and result set.
pub open spec fn concluded(
    before: CoreUpdate,
    after: CoreUpdate,
    phase: UpdatePhase,
    result: OutcomeView,
) -> bool {
    after == (CoreUpdate { phase, result: after.result, ..before }) && (after.result matches Some(
        outcome,
    ) && outcome@ == result)
}

/// The second durable step of a commit comes after the intent is recorded; the third records the
/// result. `committed` relates a store whose intent is recorded to the one at the end.
pub open spec fn committed(start: StoreView, end: StoreView) -> bool {
    end == (StoreView { manifest: committed_manifest(start), update: end.update, ..start })
        && end.update is Some && concluded(
        start.update->0,
        end.update->0,
        UpdatePhase::Committed,
        commit_outcome(start.update->0, recorded_state(start)->Ok_0),
    )
}

/// An interrupted commit is completed to the same end. Whether it was interrupted after its intent
/// was recorded or after the configuration was replaced as well, it may be committed again, and the
/// end differs in nothing from the end of an uninterrupted commit.
pub proof fn interrupted_commit_completes_once(store: StoreView, id: Uuid, end: StoreView)
    requires
        committable(store, id) is Ok,
        store.update->0.phase == UpdatePhase::Switching,
        store.manifest.store_id == store.update->0.after.store_id,
        store.manifest.owner_sid@ == store.update->0.after.owner_sid@,
    ensures
        ({
            let intent = in_phase(store, UpdatePhase::Committing);
            let replaced = StoreView { manifest: committed_manifest(intent), ..intent };
            committable(intent, id) is Ok && committable(replaced, id) is Ok && (committed(
                intent,
                end,
            ) <==> committed(replaced, end))
        }),
{
    let intent = in_phase(store, UpdatePhase::Committing);
    let replaced = StoreView { manifest: committed_manifest(intent), ..intent };
    let plan = store.update->0;
    same_validity(store, intent);
    assert(update_validity(intent, intent.update->0) == update_validity(store, plan));
    assert(recorded_state(intent) == recorded_state(store));
    same_generations(intent, replaced);
    assert(recorded_state(replaced) == recorded_state(intent));
}

/// What opens in a store depends on its generations and its identity alone.
pub proof fn same_generations(a: StoreView, b: StoreView)
    requires
        a.generations == b.generations,
        a.config_limit == b.config_limit,
        a.manifest.store_id == b.manifest.store_id,
    ensures
        forall|id: Uuid| opened(a, id) == #[trigger] opened(b, id),
{
}

proof fn same_validity(a: StoreView, b: StoreView)
    requires
        a.generations == b.generations,
        a.config_limit == b.config_limit,
        a.manifest == b.manifest,
    ensures
        forall|id: Uuid| opened(a, id) == #[trigger] opened(b, id),
{
    same_generations(a, b);
}

/// While an update is active no edit of the configuration is recorded: idling is refused with the
/// code that tells the client to wait.
pub proof fn active_update_blocks_changes(store: StoreView, id: Uuid)
    requires
        required(store, id) is Ok,
        is_active(store.update->0.phase),
    ensures
        idle(store) == invalid::<()>("CORE_RECONFIGURATION_PENDING"),
{
}

impl Store {
    pub(crate) fn validate_core_update(&self, plan: &CoreUpdate) -> (r: Result<()>)
        ensures
            r == update_validity(self@, *plan),
    {
        let owner = self.manifest.owner_sid.as_str();
        validate_state(&plan.previous, owner)?;
        let version = plan.schema_version == 2 || (plan.schema_version == 1 && matches!(
            plan.change,
            UpdateChange::EditProfile
        ));
        if !version || plan.store_id != self.manifest.store_id || plan.plan_id.is_nil()
            || plan.profile_id.is_nil() || plan.candidate.is_nil() || !check_phase(plan, owner) {
            return Err(Error::Invalid("INVALID_CORE_UPDATE_RECORD"));
        }
        plan.before.validate()?;
        plan.after.validate()?;
        let old = self.open_core_generation(plan.old_generation()?)?;
        let candidate = self.open_core_generation(plan.candidate)?;
        if !core_generation_matches(&plan.before_config, old)? {
            return Err(Error::Invalid("CORE_UPDATE_GENERATION_MISMATCH"));
        }
        if !plan.removes_last() {
            if !core_generation_matches(&plan.after_config, candidate)? {
                return Err(Error::Invalid("CORE_UPDATE_GENERATION_MISMATCH"));
            }
        }
        let old_ids = old.profile_ids();
        let candidate_ids = candidate.profile_ids();
        if check_change(plan, old_ids.as_slice(), candidate_ids.as_slice()) {
            Ok(())
        } else {
            Err(Error::Invalid("INVALID_CORE_UPDATE_RECORD"))
        }
    }

    /// The recorded plan, once it is found usable.
    pub fn core_update(&self) -> (r: Result<Option<&CoreUpdate>>)
        ensures
            match (r, self@.update) {
                (Ok(None), None) => true,
                (Ok(Some(found)), Some(plan)) => *found == plan && update_validity(self@, plan)
                    is Ok,
                (Err(e), Some(plan)) => update_validity(self@, plan) == Err::<(), Error>(e),
                _ => false,
            },
    {
        match &self.update {
            None => Ok(None),
            Some(plan) => {
                self.validate_core_update(plan)?;
                Ok(Some(plan))
            },
        }
    }

    /// Refuse while an update is active.
    pub fn ensure_core_update_idle(&self) -> (r: Result<()>)
        ensures
            r == idle(self@),
    {
        match self.core_update()? {
            Some(plan) => {
                if plan.active() {
                    return Err(Error::Invalid("CORE_RECONFIGURATION_PENDING"));
                }
            },
            None => {},
        }
        Ok(())
    }

    /// The recorded plan, if it is usable and is the one named `id`.
    pub fn require_core_update(&self, id: Uuid) -> (r: Result<&CoreUpdate>)
        ensures
            match r {
                Ok(plan) => required(self@, id) is Ok && self@.update == Some(*plan),
                Err(e) => required(self@, id) == Err::<(), Error>(e),
            },
    {
        match self.core_update()? {
            Some(plan) => {
                if plan.plan_id == id {
                    return Ok(plan);
                }
            },
            None => {},
        }
        Err(Error::Invalid("CORE_UPDATE_PLAN_CHANGED"))
    }

    pub(crate) fn check_update_dependencies(&self, plan: &CoreUpdate) -> (r: Result<()>)
        ensures
            r == dependencies(self@, *plan),
    {
        if !self.manifest.same(&plan.before) {
            return Err(Error::Invalid("CORE_UPDATE_PLAN_STALE"));
        }
        let state = self.core_state()?;
        if !state.same(&plan.previous) {
            return Err(Error::Invalid("CORE_UPDATE_PLAN_STALE"));
        }
        Ok(())
    }

    /// What a plan will do to profiles and instances.
    pub fn core_update_impact(&self, plan: &CoreUpdate) -> (r: Result<UpdateImpact>)
        ensures
            match r {
                Ok(impact) => impact_of(self@, *plan) == Ok::<ImpactView, Error>(impact@),
                Err(e) => impact_of(self@, *plan) == Err::<ImpactView, Error>(e),
            },
    {
        let previous_generation = plan.old_generation()?;
        let active = self.open_core_generation(previous_generation)?;
        let candidate = self.open_core_generation(plan.candidate)?;
        let affected_profiles = active.profile_ids();
        let candidate_ids = candidate.profile_ids();
        let added_profiles = retain_not_among(
            candidate_ids.as_slice(),
            affected_profiles.as_slice(),
        );
        let bound_instances = bound_instances(
            plan.before.instances.as_slice(),
            affected_profiles.as_slice(),
        );
        let mut removed_profiles: Vec<Uuid> = Vec::new();
        if matches!(plan.change, UpdateChange::RemoveProfile) {
            removed_profiles.push(plan.profile_id);
        }
        proof {
            assert(removed_profiles@ =~= if plan.change is RemoveProfile {
                seq![plan.profile_id]
            } else {
                seq![]
            });
        }
        Ok(
            UpdateImpact {
                plan_id: plan.plan_id,
                manifest_revision: plan.before.revision,
                previous_generation,
                changed_profile: plan.profile_id,
                added_profiles,
                removed_profiles,
                affected_profiles,
                bound_instances,
            },
        )
    }

    /// Take a step of the runtime journal that belongs to the update named `id`. `compiled` is the
    /// configuration that the step's snapshot compiles to: the plan's second one while switching,
    /// its first one while restoring.
    pub fn transition_core_update(
        &mut self,
        id: Uuid,
        expected: &CoreState,
        next: CoreState,
        compiled: &Compiled,
    ) -> (r: Result<()>)
        ensures
            r == update_transition(old(self)@, id, expected@, next@, *compiled),
            final(self)@ == (match r {
                Ok(_) => with_state(old(self)@, next),
                Err(_) => old(self)@,
            }),
    {
        let plan = self.require_core_update(id)?;
        let generation = match plan.phase {
            UpdatePhase::Switching => plan.candidate,
            UpdatePhase::Restoring => plan.old_generation()?,
            _ => {
                return Err(Error::Invalid("INVALID_CORE_UPDATE_PHASE"));
            },
        };
        match &next {
            CoreState::Starting { generation: g } => {
                if *g != generation {
                    return Err(Error::Invalid("CORE_UPDATE_GENERATION_MISMATCH"));
                }
            },
            CoreState::Running { generation: g, .. } => {
                if *g != generation {
                    return Err(Error::Invalid("CORE_UPDATE_GENERATION_MISMATCH"));
                }
            },
            CoreState::Stopped => {
                if !plan.removes_last() || !matches!(plan.phase, UpdatePhase::Switching) {
                    return Err(Error::Invalid("INVALID_CORE_UPDATE_PHASE"));
                }
            },
            CoreState::Down { .. } => {},
        }
        self.transition_core_state_inner(expected, next, compiled, true)
    }

    fn set_update_phase(&mut self, phase: UpdatePhase)
        requires
            old(self).update is Some,
        ensures
            final(self)@ == in_phase(old(self)@, phase),
    {
        match &mut self.update {
            Some(plan) => {
                plan.phase = phase;
            },
            None => {},
        }
    }

    fn conclude_update(&mut self, phase: UpdatePhase, outcome: CoreOutcome)
        requires
            old(self).update is Some,
        ensures
            final(self)@ == (StoreView {
                update: Some(
                    CoreUpdate { phase, result: Some(outcome), ..old(self)@.update->0 },
                ),
                ..old(self)@
            }),
    {
        match &mut self.update {
            Some(plan) => {
                plan.phase = phase;
                plan.result = Some(outcome);
            },
            None => {},
        }
    }

    /// The first durable step of a commit: record the intent before the configuration changes.
    pub fn begin_core_commit(&mut self, id: Uuid) -> (r: Result<()>)
        ensures
            r == committable(old(self)@, id),
            final(self)@ == (match r {
                Ok(_) => in_phase(old(self)@, UpdatePhase::Committing),
                Err(_) => old(self)@,
            }),
    {
        let plan = self.require_core_update(id)?;
        let switching = match plan.phase {
            UpdatePhase::Switching => true,
            UpdatePhase::Committing => false,
            _ => {
                return Err(Error::Invalid("INVALID_CORE_UPDATE_PHASE"));
            },
        };
        let state = self.core_state()?;
        let running = if plan.removes_last() {
            matches!(state, CoreState::Stopped)
        } else {
            match &state {
                CoreState::Running { generation, .. } => *generation == plan.candidate,
                _ => false,
            }
        };
        if !running {
            return Err(Error::Invalid("CORE_UPDATE_NOT_RUNNING"));
        }
        let before = self.manifest.same(&plan.before);
        let after = self.manifest.same(&plan.after);
        if !before && !after {
            return Err(Error::Invalid("CORE_UPDATE_CONFIG_CONFLICT"));
        }
        if switching && !before {
            return Err(Error::Invalid("CORE_UPDATE_CONFIG_CONFLICT"));
        }
        self.set_update_phase(UpdatePhase::Committing);
        Ok(())
    }

    /// Commit an update whose new core was found healthy. The intent is recorded before the
    /// configuration changes; repeating an interrupted commit completes one commit.
    pub fn commit_core_update(&mut self, id: Uuid) -> (r: Result<u64>)
        ensures
            match committable(old(self)@, id) {
                Err(e) => r == Err::<u64, Error>(e) && final(self)@ == old(self)@,
                Ok(_) => r == Ok::<u64, Error>(old(self)@.update->0.after.revision) && committed(
                    in_phase(old(self)@, UpdatePhase::Committing),
                    final(self)@,
                ),
            },
    {
        self.begin_core_commit(id)?;
        let ghost intent = self@;
        proof {
            assert(recorded_state(intent) == recorded_state(old(self)@));
        }
        let state = match self.core_state() {
            Ok(state) => state,
            Err(e) => {
                return Err(e);
            },
        };
        let (target, revision, outcome) = match &self.update {
            Some(plan) => {
                let outcome = match (&plan.change, state) {
                    (UpdateChange::RemoveProfile, _) => CoreOutcome::ProfileRemoved {
                        profile_id: plan.profile_id,
                        revision: plan.after.revision,
                    },
                    (_, CoreState::Running { generation, process }) => CoreOutcome::Reconfigured {
                        generation,
                        process,
                        revision: plan.after.revision,
                    },
                    _ => {
                        proof {
                            assert(false);
                        }
                        return Err(Error::Invalid("CORE_COMMIT_STATE_UNKNOWN"));
                    },
                };
                let target = if self.manifest.same(&plan.after) {
                    None
                } else {
                    Some(share(&plan.after))
                };
                (target, plan.after.revision, outcome)
            },
            None => {
                return Err(Error::Invalid("CORE_UPDATE_PLAN_CHANGED"));
            },
        };
        match target {
            Some(snapshot) => {
                self.manifest = snapshot;
            },
            None => {},
        }
        self.conclude_update(UpdatePhase::Committed, outcome);
        Ok(revision)
    }

    /// Turn an update back: from here on only the old generation may be started.
    pub fn begin_core_restore(&mut self, id: Uuid) -> (r: Result<&CoreUpdate>)
        ensures
            restore_begins(old(self)@, final(self)@, id, r),
    {
        let plan = self.require_core_update(id)?;
        match plan.phase {
            UpdatePhase::Switching | UpdatePhase::Restoring => {},
            _ => {
                return Err(Error::Invalid("INVALID_CORE_UPDATE_PHASE"));
            },
        }
        if !self.manifest.same(&plan.before) {
            return Err(Error::Invalid("CORE_UPDATE_CONFIG_CONFLICT"));
        }
        self.set_update_phase(UpdatePhase::Restoring);
        match &self.update {
            Some(plan) => Ok(plan),
            None => Err(Error::Invalid("CORE_UPDATE_PLAN_CHANGED")),
        }
    }

    /// Record that an update was turned back: the old generation runs again, or it is confirmed
    /// to be down.
    pub fn finish_core_restore(&mut self, id: Uuid, core_down: bool) -> (r: Result<()>)
        ensures
            restore_ends(old(self)@, final(self)@, id, core_down, r),
    {
        let plan = self.require_core_update(id)?;
        if !matches!(plan.phase, UpdatePhase::Restoring) || !self.manifest.same(&plan.before) {
            return Err(Error::Invalid("INVALID_CORE_UPDATE_PHASE"));
        }
        let old_id = plan.old_generation()?;
        let state = self.core_state()?;
        let confirmed = match &state {
            CoreState::Running { generation, .. } => !core_down && *generation == old_id,
            CoreState::Down { generation } => core_down && *generation == old_id,
            _ => false,
        };
        if !confirmed {
            return Err(Error::Invalid("CORE_RESTORE_NOT_CONFIRMED"));
        }
        self.conclude_update(
            UpdatePhase::Restored { core_down },
            CoreOutcome::Restored { core_down },
        );
        Ok(())
    }

    /// Record an outage of the candidate as an outage of the generation that is being restored.
    pub fn mark_core_restore_down(&mut self, id: Uuid) -> (r: Result<()>)
        ensures
            restore_marked(old(self)@, final(self)@, id, r),
    {
        let plan = self.require_core_update(id)?;
        let state = self.core_state()?;
        if !matches!(plan.phase, UpdatePhase::Restoring) || !matches!(
            state,
            CoreState::Down { .. }
        ) {
            return Err(Error::Invalid("CORE_RESTORE_STATE_UNKNOWN"));
        }
        let generation = plan.old_generation()?;
        self.transition_core_state_inner(
            &state,
            CoreState::Down { generation },
            &Compiled::Refused("CORE_SECRET_UNAVAILABLE"),
            true,
        )
    }
}

/// Whether an update may be recorded as turned back.
pub open spec fn restorable(store: StoreView, id: Uuid, core_down: bool) -> Result<()> {
    match required(store, id) {
        Err(e) => Err(e),
        Ok(_) => {
            let plan = store.update->0;
            if plan.phase != UpdatePhase::Restoring || store.manifest.encoded@
                != plan.before.encoded@ {
                invalid("INVALID_CORE_UPDATE_PHASE")
            } else {
                match recorded_state(store) {
                    Err(e) => Err(e),
                    Ok(state) => if (state is Running && !core_down || state is Down && core_down)
                        && Ok::<Uuid, Error>(state_generation(state)->0) == old_of(plan) {
                        Ok(())
                    } else {
                        invalid("CORE_RESTORE_NOT_CONFIRMED")
                    },
                }
            }
        },
    }
}

/// What going back to the old core does and answers.
pub open spec fn restore_begins(
    before: StoreView,
    after: StoreView,
    id: Uuid,
    r: Result<&CoreUpdate>,
) -> bool {
    match required(before, id) {
        Err(e) => r == Err::<&CoreUpdate, Error>(e) && after == before,
        Ok(_) => {
            let plan = before.update->0;
            if plan.phase != UpdatePhase::Switching && plan.phase
                != UpdatePhase::Restoring {
                r == invalid::<&CoreUpdate>("INVALID_CORE_UPDATE_PHASE") && after
                    == before
            } else if before.manifest.encoded@ != plan.before.encoded@ {
                r == invalid::<&CoreUpdate>("CORE_UPDATE_CONFIG_CONFLICT") && after
                    == before
            } else {
                (r matches Ok(plan) && after.update == Some(*plan)) && after == in_phase(
                    before,
                    UpdatePhase::Restoring,
                )
            }
        },
    }
}

/// What recording that the old core is down does and answers.
pub open spec fn restore_marked(before: StoreView, after: StoreView, id: Uuid, r: Result<()>) -> bool {
    match required(before, id) {
        Err(e) => r == Err::<(), Error>(e) && after == before,
        Ok(_) => {
            let plan = before.update->0;
            match recorded_state(before) {
                Err(e) => r == Err::<(), Error>(e) && after == before,
                Ok(state) => if plan.phase != UpdatePhase::Restoring || !(state is Down) {
                    r == invalid::<()>("CORE_RESTORE_STATE_UNKNOWN") && after
                        == before
                } else {
                    r == Ok::<(), Error>(()) && after == with_state(
                        before,
                        CoreState::Down { generation: old_of(plan)->Ok_0 },
                    )
                },
            }
        },
    }
}

/// What ending a restore does and answers.
pub open spec fn restore_ends(
    before: StoreView,
    after: StoreView,
    id: Uuid,
    core_down: bool,
    r: Result<()>,
) -> bool {
    &&& (r == restorable(before, id, core_down))
    &&& (match r {
        Ok(_) => after == (StoreView {
            update: Some(
                CoreUpdate {
                    phase: UpdatePhase::Restored { core_down },
                    result: Some(CoreOutcome::Restored { core_down }),
                    ..before.update->0
                },
            ),
            ..before
        }),
        Err(_) => after == before,
    })
}

} // verus!
