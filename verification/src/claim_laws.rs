//! Who holds a resource, and on what evidence it is given up, in terms of what the claim and the journal record.
use vstd::prelude::*;
use vstd::string::*;
use crate::error::{Error, Result, invalid};
use crate::ids::Uuid;
use crate::installation::ResolvedApplication;
use crate::instance_resource::{ClaimView, InstallationKey, LaunchAttempt, LaunchBinding, LaunchPhase, LockSeen, Marker, NoProcessCreated, PhaseView, ReservationView, ResourceOwner, ResourceView, TicketOutcome, acquisition, changed_by, claim_verdict, given_up_after_exit, given_up_before_spawn, given_up_on_evidence, installation_key, looked_up, marker_verdict, process_confirmed, reconciled, reserving, spawn_requested, stop_recorded};
use crate::model::ProcessView;
use crate::path;
use crate::text;

verus! {

/// A claim may be recorded only on its own resource, for the user and the session that the resource is of, for a real
/// attempt, and in a phase that agrees with what stands beside it: a reserved one has asked for nothing, one that asked
/// names its dispatch, and a confirmed one names a process that it can have led to.
pub proof fn recorded_claims_are_whole(claim: ClaimView, resource: ResourceView, sid: Seq<char>)
    requires
        claim_verdict(claim, resource, sid) is Ok,
    ensures
        claim.schema_version == 1 && claim.resource_key == resource.key && claim.user_sid == sid && claim.session_id
            == resource.session_id,
        claim.owner.store_id.bits != 0 && claim.owner.attempt_id.bits != 0 && claim.owner.epoch.bits != 0,
        resource.installation_image matches Some(image) ==> image == claim.image,
        path::absolute(claim.executable),
        claim.guard_stops.len() <= 3,
        claim.dispatch_id matches Some(id) ==> id.bits != 0,
        claim.phase is Reserved ==> claim.dispatch_id is None && !claim.local_confirmed,
        claim.phase is SpawnRequested ==> claim.dispatch_id is Some && !claim.local_confirmed,
        claim.phase matches PhaseView::Confirmed { process } ==> claim.dispatch_id is Some && process.pid != 0
            && process.creation_time != 0 && process.user_sid == claim.user_sid && process.session_id
            == claim.session_id && process.image_file == claim.image,
{
}

/// A resource is reserved only if nobody holds it: there is no claim, or the last one was given up. The new claim is
/// for this attempt alone and keeps the times of earlier stops.
pub proof fn resources_are_held_once(reservation: ReservationView, owner: ResourceOwner)
    ensures
        reserving(reservation, owner).1 is Ok ==> (reservation.claim is None || reservation.claim->0.phase is Released) && (
        reserving(reservation, owner).0.claim matches Some(claim) && claim.owner == owner && claim.phase is Reserved
            && claim.dispatch_id is None && !claim.local_confirmed && claim.guard_dispatch_id is None
            && claim.resource_key == reservation.resource.key && claim.image == reservation.resource.image
            && claim.executable == reservation.resource.executable && claim.session_id
            == reservation.resource.session_id && claim.guard_stops == (match reservation.claim {
            Some(old) => old.guard_stops,
            None => Seq::empty(),
        })),
        reserving(reservation, owner).1 is Err ==> reserving(reservation, owner).0 == reservation,
        reservation.claim matches Some(claim) && !(claim.phase is Released) ==> reserving(reservation, owner).1
            == invalid::<()>("INSTANCE_RESOURCE_RECOVERY_REQUIRED"),
{
}

/// A claim is changed only by its owner, only if nobody has changed its record, and only to a sound claim; otherwise
/// it stays as it is.
pub proof fn claims_are_changed_by_their_owner(
    reservation: ReservationView,
    owner: ResourceOwner,
    change: Result<ClaimView>,
)
    ensures
        ({
            let (after, result) = changed_by(reservation, owner, change);
            &&& result is Ok ==> (reservation.claim matches Some(claim) && claim.owner == owner) && !reservation.changed && (
            change matches Ok(next) && after.claim == Some(next) && claim_verdict(
                next,
                reservation.resource,
                reservation.sid,
            ) is Ok)
            &&& result is Err ==> after == reservation
            &&& !(reservation.claim matches Some(claim) && claim.owner == owner) ==> result == invalid::<()>(
                "INSTANCE_RESOURCE_OWNER_MISMATCH",
            )
        }),
{
}

/// A process is asked for only from a reserved claim, by a launch that is bound to this very resource, program, file and
/// session; a process is confirmed only once it was asked for.
pub proof fn processes_are_asked_for_once(
    claim: ClaimView,
    key: Seq<u8>,
    dispatch: Uuid,
    binding: LaunchBinding,
    process: ProcessView,
)
    ensures
        spawn_requested(claim, key, dispatch, binding) matches Ok(next) ==> claim.phase is Reserved
            && binding.resource_key@ == key && binding.image == claim.image && binding.executable@ == claim.executable
            && binding.session_id == claim.session_id && next == (ClaimView {
            phase: PhaseView::SpawnRequested,
            dispatch_id: Some(dispatch),
            ..claim
        }),
        !(claim.phase is Reserved) ==> spawn_requested(claim, key, dispatch, binding) == invalid::<ClaimView>(
            "INVALID_RESOURCE_TRANSITION",
        ),
        process_confirmed(claim, process) == if claim.phase is SpawnRequested {
            Ok::<ClaimView, Error>(ClaimView { phase: PhaseView::Confirmed { process }, ..claim })
        } else {
            invalid("INVALID_RESOURCE_TRANSITION")
        },
{
}

/// A claim is given up only on evidence: before a process was asked for, or because its own dispatch is known to have
/// created none, or because its confirmed process, of which the journal knows, has ended.
pub proof fn claims_are_given_up_on_evidence(
    claim: ClaimView,
    owner: ResourceOwner,
    evidence: NoProcessCreated,
    running: Result<bool>,
)
    ensures
        given_up_before_spawn(claim) is Ok <==> claim.phase is Reserved,
        given_up_on_evidence(claim, owner, evidence) is Ok <==> claim.phase is SpawnRequested && evidence.owner == owner
            && claim.dispatch_id == Some(evidence.dispatch_id),
        given_up_after_exit(claim, running) is Ok <==> claim.phase is Confirmed && claim.local_confirmed && running == Ok::<
            bool,
            Error,
        >(false),
        forall|next: ClaimView|
            (given_up_before_spawn(claim) == Ok::<ClaimView, Error>(next) || given_up_on_evidence(claim, owner, evidence)
                == Ok::<ClaimView, Error>(next) || given_up_after_exit(claim, running) == Ok::<ClaimView, Error>(next))
                ==> #[trigger] given_up(claim, next),
{
}

/// A claim is given up and otherwise as it was.
pub open spec fn given_up(claim: ClaimView, next: ClaimView) -> bool {
    next.phase is Released && next == (ClaimView { phase: PhaseView::Released, ..claim })
}

/// The guard stops a process only of the resource's own file, user and session, while the resource is reserved, once per
/// claim, five seconds after the last stop at the earliest, and three times a minute at most.
pub proof fn stops_are_of_the_resource_and_rare(claim: ClaimView, target: ProcessView, nonce: Uuid, at: u64)
    ensures
        stop_recorded(claim, target, nonce, at) matches Ok(next) ==> {
            &&& claim.phase is Reserved && claim.guard_dispatch_id is None && target.image_file == claim.image
                && target.user_sid == claim.user_sid && target.session_id == claim.session_id
            &&& next.guard_dispatch_id == Some(nonce) && next.guard_stops.len() > 0 && next.guard_stops.len() <= 3
                && next.guard_stops.last() == at
            &&& next == (ClaimView { guard_stops: next.guard_stops, guard_dispatch_id: Some(nonce), ..claim })
            &&& next.guard_stops.len() > 1 ==> next.guard_stops[next.guard_stops.len() - 2] + 5 <= at || at
                == u64::MAX
        },
        claim.guard_stops.len() > 0 && claim.guard_stops.last() > at ==> stop_recorded(claim, target, nonce, at) is Err,
{
}

/// A resource is acquired only by the user whose claims these are and who it is of, in its own session unless an
/// earlier launch is looked up, and only with its lock.
pub proof fn resources_are_acquired_by_their_user(
    sid: Seq<char>,
    resource: ResourceView,
    caller: ProcessView,
    historical: bool,
    lock: LockSeen,
    found: Option<ClaimView>,
)
    ensures
        acquisition(sid, resource, caller, historical, lock, found) matches Ok(held) ==> {
            &&& sid == resource.user_sid && sid == caller.user_sid && (resource.session_id == caller.session_id
                || historical) && lock is Taken
            &&& held.claim == found && held.resource == resource && held.sid == sid && !held.changed
            &&& found matches Some(claim) ==> claim_verdict(claim, resource, sid) is Ok
        },
        (sid != resource.user_sid || sid != caller.user_sid) ==> acquisition(
            sid,
            resource,
            caller,
            historical,
            lock,
            found,
        ) == Err::<ReservationView, Error>(Error::IdentityMismatch),
{
}

/// The directory of a user's claims is known by its mark, which names that user.
pub proof fn claims_directories_are_marked(marker: Marker, sid: Seq<char>)
    ensures
        marker_verdict(marker, sid) is Ok <==> marker.format@ == "app-proxy-rust-resources"@ && marker.schema_version == 1
            && marker.owner_sid@ == sid,
{
}

/// Two programs have the same key if they are the same application of the same package family, whatever the case, or
/// the same file where they are not packaged.
pub proof fn keys_tell_installations_apart(
    key: InstallationKey,
    a: ResolvedApplication,
    b: ResolvedApplication,
)
    requires
        installation_key(key, a),
    ensures
        installation_key(key, b) <==> match (a.package, b.package) {
            (Some(p), Some(q)) => text::same_folded(p.family_name@, q.family_name@) && text::same_folded(
                p.app_id@,
                q.app_id@,
            ),
            (None, None) => a.image == b.image,
            _ => false,
        },
{
}

/// A launch of which it is not known what it made.
pub open spec fn open_launch(phase: LaunchPhase) -> bool {
    phase is SpawnRequested || phase is AwaitingIdentity || phase is Indeterminate
}

/// Reconciliation changes nothing of a claim but its phase, the dispatch that a failed launch had, and that the
/// journal agrees. It confirms a process only from the ticket of a launch that asked for one; it tells the journal to
/// confirm only a launch that is open, and to record a failure only where the ticket shows one. Another store's claim,
/// and a claim without a launch, are left alone.
pub proof fn reconciliation_follows_the_evidence(
    reservation: ReservationView,
    store_id: Uuid,
    attempt: Option<LaunchAttempt>,
    ticket: TicketOutcome,
)
    ensures
        ({
            let (after, told, result) = reconciled(reservation, store_id, attempt, ticket);
            &&& reservation.claim is None || attempt is None || reservation.claim->0.owner.store_id != store_id
                ==> after == reservation && !told.confirm && !told.fail_not_created && !told.finish && result is Ok
            &&& after.claim is Some <==> reservation.claim is Some
            &&& reservation.claim matches Some(old) ==> (after.claim matches Some(new) && new == (ClaimView {
                phase: new.phase,
                dispatch_id: new.dispatch_id,
                local_confirmed: new.local_confirmed,
                ..old
            }) && (new.phase is Confirmed && !(old.phase is Confirmed) ==> old.phase is SpawnRequested && (
            ticket matches TicketOutcome::Created { process } && new.phase == (PhaseView::Confirmed { process: process@ })) && (
            attempt matches Some(launch) && open_launch(launch.phase) && launch.epoch == old.owner.epoch
                && launch.dispatch_id == old.dispatch_id)) && (new.phase is Released && !(old.phase is Released) ==> (
            attempt matches Some(launch) && launch.epoch == old.owner.epoch && (launch.phase is Failed || (ticket
                is NotCreated && open_launch(launch.phase))) && !(old.phase is Confirmed))))
            &&& told.confirm ==> (attempt matches Some(launch) && open_launch(launch.phase)) && (
            after.claim matches Some(new) && new.phase is Confirmed)
            &&& told.fail_not_created ==> ticket is NotCreated && (attempt matches Some(launch) && open_launch(
                launch.phase,
            ))
            &&& told.finish ==> result is Ok
        }),
{
}

/// A launch that is looked up belongs to the claim only if the claim is of this store, this attempt and this run; if
/// the resource has another owner by now, the claim is left alone, and only a launch that is decided is taken note of.
pub proof fn other_owners_claims_are_left_alone(
    sid: Seq<char>,
    store_id: Uuid,
    owner_sid: Seq<char>,
    launch: LaunchAttempt,
    caller: ProcessView,
    lock: LockSeen,
    claim: ClaimView,
    ticket: TicketOutcome,
)
    requires
        claim.owner.store_id != store_id || claim.owner.attempt_id != launch.id || claim.owner.epoch != launch.epoch,
    ensures
        looked_up(sid, store_id, owner_sid, Some(launch), caller, lock, Some(claim), ticket) matches Ok((held, told, result))
            ==> {
            &&& held matches Some(reservation) ==> reservation.claim == Some(claim)
            &&& !told.confirm && !told.fail_not_created && result is Ok
            &&& told.finish ==> launch.phase is Confirmed || (launch.phase matches LaunchPhase::Failed { code } && code@
                == "APPLICATION_NOT_CREATED"@)
        },
{
}

/// A launch that failed before anything was asked for gives its reservation up, and is finished with it.
pub proof fn failed_launches_give_their_claim_up(
    reservation: ReservationView,
    store_id: Uuid,
    attempt: LaunchAttempt,
    ticket: TicketOutcome,
)
    requires
        reservation.claim is Some,
        reservation.claim->0.owner.store_id == store_id,
        reservation.claim->0.owner.epoch == attempt.epoch,
        attempt.dispatch_id is None,
        attempt.phase is Failed,
    ensures
        ({
            let (after, told, result) = reconciled(reservation, store_id, Some(attempt), ticket);
            &&& reservation.claim->0.phase is Released ==> after == reservation && told.finish && result is Ok
            &&& reservation.claim->0.phase is Reserved && result is Ok ==> told.finish && (after.claim matches Some(claim)
                && claim.phase is Released)
        }),
{
}

/// A process that was made for a claim is confirmed to it, and told of to whoever launched it.
pub proof fn made_processes_are_confirmed(
    reservation: ReservationView,
    store_id: Uuid,
    attempt: LaunchAttempt,
    process: crate::model::ProcessIdentity,
)
    requires
        reservation.claim is Some,
        reservation.claim->0.owner.store_id == store_id,
        reservation.claim->0.phase is SpawnRequested,
        crate::instance_resource::linked(reservation.claim->0, attempt),
        open_launch(attempt.phase),
    ensures
        ({
            let (after, told, result) = reconciled(
                reservation,
                store_id,
                Some(attempt),
                TicketOutcome::Created { process },
            );
            result is Ok ==> told.confirm && told.finish && (after.claim matches Some(claim) && claim.phase == (
            PhaseView::Confirmed { process: process@ }) && claim.local_confirmed)
        }),
{
}

} // verus!
