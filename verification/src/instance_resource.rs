//! One launch at a time for what an instance uses: the claim on an installation together with its data. A
//! claim outlives the program that made it, and is given up only on evidence.
use vstd::prelude::*;
use vstd::string::*;
use crate::digest::{digest, hex, hex_text, sha256};
use crate::error::{Error, Result, invalid};
use crate::ids::Uuid;
use crate::installation::ResolvedApplication;
use crate::model::{FileIdentity, ProcessIdentity, ProcessView};
use crate::path;
use crate::text;
use crate::text::folded;

verus! {

/// The time in which a program is stopped at most three times, in seconds.
pub const STOP_WINDOW: u64 = 60;

/// The shortest time between two stops, in seconds.
pub const STOP_COOLDOWN: u64 = 5;

/// How many stops the window holds.
pub const STOP_LIMIT: usize = 3;

/// An installation by what tells it from others: a package and its application, or a file.
#[derive(Debug)]
pub enum InstallationKey {
    Exe { image: FileIdentity },
    Msix { family_name: String, app_id: String },
}

/// The data that is worked on: the application's own, or a directory.
#[derive(Clone, Copy, Debug, PartialEq, Eq, Structural)]
pub enum DataKey {
    Original,
    Isolated { directory: FileIdentity },
}

/// What a claim is on: an installation with its data, for a user in a session.
#[derive(Debug)]
pub struct Key {
    pub version: u32,
    pub user_sid: String,
    pub session_id: u32,
    pub installation: InstallationKey,
    pub data: DataKey,
}

/// The key of an installation: packages are told apart by name, other programs by their file.
pub open spec fn installation_key(key: InstallationKey, application: ResolvedApplication) -> bool {
    match (application.package, key) {
        (Some(package), InstallationKey::Msix { family_name, app_id }) => family_name@ == folded(
            package.family_name@,
        ) && app_id@ == folded(package.app_id@),
        (None, InstallationKey::Exe { image }) => image == application.image,
        _ => false,
    }
}

fn fold_text(value: &str) -> (r: String)
    ensures
        r@ == folded(value@),
{
    let x = text::chars(value);
    let mut out = String::new();
    let mut i: usize = 0;
    while i < x.len()
        invariant
            i <= x.len(),
            x@ == value@,
            out@ == folded(value@).take(i as int),
        decreases x.len() - i,
    {
        out.push(text::lower(x[i]));
        i += 1;
        proof {
            let f = folded(value@);
            assert(f.take(i as int) =~= f.take(i - 1).push(f[i - 1]));
        }
    }
    proof {
        let f = folded(value@);
        assert(f.take(f.len() as int) =~= f);
    }
    out
}

/// What a claim on an application and its data is on. `data` is the directory of an isolated instance.
pub fn resource_key(
    application: &ResolvedApplication,
    caller: &ProcessIdentity,
    data: Option<FileIdentity>,
) -> (r: Key)
    ensures
        key_made(*application, caller@, data, r),
{
    Key {
        version: 1,
        user_sid: caller.user_sid.clone(),
        session_id: caller.session_id,
        installation: match &application.package {
            Some(package) => InstallationKey::Msix {
                family_name: fold_text(package.family_name.as_str()),
                app_id: fold_text(package.app_id.as_str()),
            },
            None => InstallationKey::Exe { image: application.image },
        },
        data: match data {
            Some(directory) => DataKey::Isolated { directory },
            None => DataKey::Original,
        },
    }
}

/// What a claim is on, as far as claims record it. `installation_image` is the file that an unpackaged
/// program has to be.
#[derive(Debug)]
pub struct InstanceResource {
    pub key: Vec<u8>,
    pub user_sid: String,
    pub session_id: u32,
    pub executable: String,
    pub image: FileIdentity,
    pub installation_image: Option<FileIdentity>,
}

/// The contents of a resource.
pub struct ResourceView {
    pub key: Seq<u8>,
    pub user_sid: Seq<char>,
    pub session_id: u32,
    pub executable: Seq<char>,
    pub image: FileIdentity,
    pub installation_image: Option<FileIdentity>,
}

impl View for InstanceResource {
    type V = ResourceView;

    open spec fn view(&self) -> ResourceView {
        ResourceView {
            key: self.key@,
            user_sid: self.user_sid@,
            session_id: self.session_id,
            executable: self.executable@,
            image: self.image,
            installation_image: self.installation_image,
        }
    }
}

impl InstanceResource {
    /// The resource of an application. `encoded` is the encoding of its key.
    pub fn resolve(application: &ResolvedApplication, caller: &ProcessIdentity, encoded: &[u8]) -> (r:
        InstanceResource)
        ensures
            resolved(*application, caller@, encoded@, r@),
    {
        InstanceResource {
            key: digest(encoded),
            user_sid: caller.user_sid.clone(),
            session_id: caller.session_id,
            executable: application.executable.clone(),
            image: application.image,
            installation_image: if application.package.is_none() {
                Some(application.image)
            } else {
                None
            },
        }
    }

    /// The digest that names the resource.
    pub fn digest(&self) -> (r: &[u8])
        ensures
            r@ == self.key@,
    {
        self.key.as_slice()
    }

    /// The names of the resource's lock and of its claim.
    pub fn names(&self) -> (r: (String, String))
        ensures
            r.0@ == hex(self.key@) + ".lock"@,
            r.1@ == hex(self.key@) + ".json"@,
    {
        let name = hex_text(self.key.as_slice());
        (text::join(name.as_str(), ".lock"), text::join(name.as_str(), ".json"))
    }
}

/// Who made a claim: an attempt of a store, in one run of the program.
#[derive(Clone, Copy, Debug, PartialEq, Eq, Structural)]
pub struct ResourceOwner {
    pub store_id: Uuid,
    pub attempt_id: Uuid,
    pub epoch: Uuid,
}

/// How far a claim has come.
#[derive(Debug)]
pub enum ResourcePhase {
    Reserved,
    SpawnRequested,
    Confirmed { process: ProcessIdentity },
    Released,
}

/// The contents of a phase.
pub enum PhaseView {
    Reserved,
    SpawnRequested,
    Confirmed { process: ProcessView },
    Released,
}

impl View for ResourcePhase {
    type V = PhaseView;

    open spec fn view(&self) -> PhaseView {
        match self {
            ResourcePhase::Reserved => PhaseView::Reserved,
            ResourcePhase::SpawnRequested => PhaseView::SpawnRequested,
            ResourcePhase::Confirmed { process } => PhaseView::Confirmed { process: process@ },
            ResourcePhase::Released => PhaseView::Released,
        }
    }
}

impl ResourcePhase {
    fn copy(&self) -> (r: ResourcePhase)
        ensures
            r == *self,
    {
        match self {
            ResourcePhase::Reserved => ResourcePhase::Reserved,
            ResourcePhase::SpawnRequested => ResourcePhase::SpawnRequested,
            ResourcePhase::Confirmed { process } => ResourcePhase::Confirmed {
                process: process.copy(),
            },
            ResourcePhase::Released => ResourcePhase::Released,
        }
    }
}

/// A claim. `guard_stops` are the times at which the guard stopped the program.
#[derive(Debug)]
pub struct ResourceClaim {
    pub guard_stops: Vec<u64>,
    pub guard_dispatch_id: Option<Uuid>,
    pub schema_version: u32,
    pub resource_key: Vec<u8>,
    pub user_sid: String,
    pub session_id: u32,
    pub executable: String,
    pub image: FileIdentity,
    pub owner: ResourceOwner,
    pub dispatch_id: Option<Uuid>,
    pub local_confirmed: bool,
    pub phase: ResourcePhase,
}

/// The contents of a claim.
pub struct ClaimView {
    pub guard_stops: Seq<u64>,
    pub guard_dispatch_id: Option<Uuid>,
    pub schema_version: u32,
    pub resource_key: Seq<u8>,
    pub user_sid: Seq<char>,
    pub session_id: u32,
    pub executable: Seq<char>,
    pub image: FileIdentity,
    pub owner: ResourceOwner,
    pub dispatch_id: Option<Uuid>,
    pub local_confirmed: bool,
    pub phase: PhaseView,
}

impl View for ResourceClaim {
    type V = ClaimView;

    open spec fn view(&self) -> ClaimView {
        ClaimView {
            guard_stops: self.guard_stops@,
            guard_dispatch_id: self.guard_dispatch_id,
            schema_version: self.schema_version,
            resource_key: self.resource_key@,
            user_sid: self.user_sid@,
            session_id: self.session_id,
            executable: self.executable@,
            image: self.image,
            owner: self.owner,
            dispatch_id: self.dispatch_id,
            local_confirmed: self.local_confirmed,
            phase: self.phase@,
        }
    }
}

fn copy_times(times: &[u64]) -> (r: Vec<u64>)
    ensures
        r@ == times@,
{
    let mut out: Vec<u64> = Vec::new();
    let mut i: usize = 0;
    while i < times.len()
        invariant
            i <= times.len(),
            out@ == times@.take(i as int),
        decreases times.len() - i,
    {
        out.push(times[i]);
        i += 1;
        proof {
            assert(times@.take(i as int) =~= times@.take(i - 1).push(times@[i - 1]));
        }
    }
    proof {
        assert(times@.take(times@.len() as int) =~= times@);
    }
    out
}

impl ResourceClaim {
    /// An equal claim.
    pub fn copy(&self) -> (r: ResourceClaim)
        ensures
            r@ == self@,
    {
        ResourceClaim {
            guard_stops: copy_times(self.guard_stops.as_slice()),
            guard_dispatch_id: self.guard_dispatch_id,
            schema_version: self.schema_version,
            resource_key: text::copy_bytes(self.resource_key.as_slice()),
            user_sid: self.user_sid.clone(),
            session_id: self.session_id,
            executable: self.executable.clone(),
            image: self.image,
            owner: self.owner,
            dispatch_id: self.dispatch_id,
            local_confirmed: self.local_confirmed,
            phase: self.phase.copy(),
        }
    }
}

/// Times in strictly ascending order, none of them zero.
pub open spec fn times_valid(times: Seq<u64>) -> bool {
    times.len() <= STOP_LIMIT && (forall|i: int|
        0 <= i < times.len() ==> #[trigger] times[i] != 0) && forall|i: int, j: int|
        0 <= i < j < times.len() ==> #[trigger] times[i] < #[trigger] times[j]
}

/// An identifier that is absent or real.
pub open spec fn absent_or_real(id: Option<Uuid>) -> bool {
    id matches Some(value) ==> value.bits != 0
}

/// The fixed parts of a claim fit the resource.
pub open spec fn claim_fits(claim: ClaimView, resource: ResourceView, sid: Seq<char>) -> bool {
    claim.schema_version == 1 && times_valid(claim.guard_stops) && absent_or_real(
        claim.guard_dispatch_id,
    ) && (claim.guard_dispatch_id is Some ==> claim.guard_stops.len() > 0) && claim.resource_key
        == resource.key && claim.user_sid == sid && claim.session_id == resource.session_id
        && claim.owner.store_id.bits != 0 && claim.owner.attempt_id.bits != 0
        && claim.owner.epoch.bits != 0 && (resource.installation_image matches Some(image)
        ==> image == claim.image) && path::absolute(claim.executable) && !claim.executable.contains(
        '\0',
    )
}

/// The phase of a claim agrees with what is recorded beside it.
pub open spec fn phase_fits(claim: ClaimView) -> bool {
    absent_or_real(claim.dispatch_id) && (claim.local_confirmed ==> claim.phase is Confirmed
        || claim.phase is Released) && (claim.phase is Reserved ==> claim.dispatch_id is None) && (
    claim.phase is SpawnRequested || claim.phase is Confirmed ==> claim.dispatch_id is Some)
}

/// The process of a confirmed claim is one that the claim can have led to.
pub open spec fn process_fits(claim: ClaimView, process: ProcessView) -> bool {
    process.pid != 0 && process.creation_time != 0 && process.user_sid == claim.user_sid
        && process.session_id == claim.session_id && process.image_file == claim.image
        && path::absolute(process.image_path) && !process.image_path.contains('\0')
}

/// Why a claim may not be recorded.
pub open spec fn claim_verdict(claim: ClaimView, resource: ResourceView, sid: Seq<char>) -> Result<()> {
    if !claim_fits(claim, resource, sid) || !phase_fits(claim) {
        invalid("INVALID_RESOURCE_CLAIM")
    } else {
        match claim.phase {
            PhaseView::Confirmed { process } => if process_fits(claim, process) {
                Ok(())
            } else {
                invalid("INVALID_RESOURCE_PROCESS")
            },
            _ => Ok(()),
        }
    }
}

fn is_times_valid(times: &[u64]) -> (r: bool)
    ensures
        r == times_valid(times@),
{
    if times.len() > STOP_LIMIT {
        return false;
    }
    let mut i: usize = 0;
    while i < times.len()
        invariant
            i <= times.len(),
            forall|k: int| 0 <= k < i ==> #[trigger] times@[k] != 0,
            forall|a: int, b: int|
                0 <= a < b < i ==> #[trigger] times@[a] < #[trigger] times@[b],
        decreases times.len() - i,
    {
        if times[i] == 0 {
            return false;
        }
        if i > 0 && times[i - 1] >= times[i] {
            return false;
        }
        proof {
            assert forall|a: int, b: int| 0 <= a < b < i + 1 implies #[trigger] times@[a]
                < #[trigger] times@[b] by {
                if b == i && a < i - 1 {
                    assert(times@[a] < times@[i - 1]);
                }
            }
        }
        i += 1;
    }
    true
}

fn is_absent_or_real(id: Option<Uuid>) -> (r: bool)
    ensures
        r == absent_or_real(id),
{
    match id {
        Some(value) => !value.is_nil(),
        None => true,
    }
}

/// Check a claim on a resource.
pub fn validate(claim: &ResourceClaim, resource: &InstanceResource, sid: &str) -> (r: Result<()>)
    ensures
        r == claim_verdict(claim@, resource@, sid@),
{
    let image = match resource.installation_image {
        Some(image) => image == claim.image,
        None => true,
    };
    if claim.schema_version != 1 || !is_times_valid(claim.guard_stops.as_slice())
        || !is_absent_or_real(claim.guard_dispatch_id) || (claim.guard_dispatch_id.is_some()
        && claim.guard_stops.len() == 0) || !text::same_bytes(
        claim.resource_key.as_slice(),
        resource.key.as_slice(),
    ) || !text::same(claim.user_sid.as_str(), sid) || claim.session_id != resource.session_id
        || claim.owner.store_id.is_nil() || claim.owner.attempt_id.is_nil()
        || claim.owner.epoch.is_nil() || !image || !path::is_absolute(claim.executable.as_str())
        || text::has_terminator(claim.executable.as_str()) {
        return Err(Error::Invalid("INVALID_RESOURCE_CLAIM"));
    }
    let reserved = matches!(claim.phase, ResourcePhase::Reserved);
    let requested = matches!(claim.phase, ResourcePhase::SpawnRequested);
    let confirmed = matches!(claim.phase, ResourcePhase::Confirmed { .. });
    let released = matches!(claim.phase, ResourcePhase::Released);
    if !is_absent_or_real(claim.dispatch_id) || (claim.local_confirmed && !confirmed && !released)
        || (reserved && claim.dispatch_id.is_some()) || ((requested || confirmed)
        && claim.dispatch_id.is_none()) {
        return Err(Error::Invalid("INVALID_RESOURCE_CLAIM"));
    }
    match &claim.phase {
        ResourcePhase::Confirmed { process } => {
            if process.pid == 0 || process.creation_time == 0 || !text::same(
                process.user_sid.as_str(),
                claim.user_sid.as_str(),
            ) || process.session_id != claim.session_id || process.image_file != claim.image
                || !path::is_absolute(process.image_path.as_str()) || text::has_terminator(
                process.image_path.as_str(),
            ) {
                return Err(Error::Invalid("INVALID_RESOURCE_PROCESS"));
            }
            Ok(())
        },
        _ => Ok(()),
    }
}

/// A resource that is locked, and the claim on it. `changed` says that the recorded claim is no longer the
/// one that was read.
#[derive(Debug)]
pub struct ResourceReservation {
    pub resource: InstanceResource,
    pub sid: String,
    pub changed: bool,
    pub claim: Option<ResourceClaim>,
}

/// The contents of a reservation.
pub struct ReservationView {
    pub resource: ResourceView,
    pub sid: Seq<char>,
    pub changed: bool,
    pub claim: Option<ClaimView>,
}

impl View for ResourceReservation {
    type V = ReservationView;

    open spec fn view(&self) -> ReservationView {
        ReservationView {
            resource: self.resource@,
            sid: self.sid@,
            changed: self.changed,
            claim: match self.claim {
                Some(claim) => Some(claim@),
                None => None,
            },
        }
    }
}

/// What recording a claim comes to: it must be sound, and nobody else may have changed the record.
pub open spec fn written(reservation: ReservationView, claim: ClaimView) -> (
    ReservationView,
    Result<()>,
) {
    if claim_verdict(claim, reservation.resource, reservation.sid) is Err {
        (reservation, claim_verdict(claim, reservation.resource, reservation.sid))
    } else if reservation.changed {
        (reservation, invalid("INSTANCE_RESOURCE_CLAIM_CHANGED"))
    } else {
        (ReservationView { claim: Some(claim), ..reservation }, Ok(()))
    }
}

/// A claim of this owner.
pub open spec fn owned(reservation: ReservationView, owner: ResourceOwner) -> bool {
    reservation.claim is Some && reservation.claim->0.owner == owner
}

/// A change of an owner's claim: refused without it, refused for a reason, or recorded.
pub open spec fn changed_by(
    reservation: ReservationView,
    owner: ResourceOwner,
    change: Result<ClaimView>,
) -> (ReservationView, Result<()>) {
    if !owned(reservation, owner) {
        (reservation, invalid("INSTANCE_RESOURCE_OWNER_MISMATCH"))
    } else {
        match change {
            Err(e) => (reservation, Err(e)),
            Ok(claim) => written(reservation, claim),
        }
    }
}

/// A claim once its resource is reserved for a new owner. The times of earlier stops stay.
pub open spec fn reserved_claim(reservation: ReservationView, owner: ResourceOwner) -> ClaimView {
    ClaimView {
        guard_stops: match reservation.claim {
            Some(claim) => claim.guard_stops,
            None => Seq::empty(),
        },
        guard_dispatch_id: None,
        schema_version: 1,
        resource_key: reservation.resource.key,
        user_sid: reservation.resource.user_sid,
        session_id: reservation.resource.session_id,
        executable: reservation.resource.executable,
        image: reservation.resource.image,
        owner,
        dispatch_id: None,
        local_confirmed: false,
        phase: PhaseView::Reserved,
    }
}

/// A time at or after another, which may lie at the end of time.
pub open spec fn later(time: u64, by: u64) -> int {
    if time + by > u64::MAX {
        u64::MAX as int
    } else {
        time + by
    }
}

/// The stops that still count at a time.
pub open spec fn recent(stops: Seq<u64>, at: u64) -> Seq<u64>
    decreases stops.len(),
{
    if stops.len() == 0 {
        stops
    } else {
        let front = recent(stops.drop_last(), at);
        if later(stops.last(), STOP_WINDOW) > at {
            front.push(stops.last())
        } else {
            front
        }
    }
}

/// Whether the guard may stop a program now: time has not run backwards, the last stop is some time ago, and
/// there were not too many of late.
pub open spec fn throttled(stops: Seq<u64>, at: u64) -> Result<Seq<u64>> {
    let counted = recent(stops, at);
    if stops.len() > 0 && stops.last() > at {
        invalid("GUARD_CLOCK_ROLLBACK")
    } else if counted.len() > 0 && later(counted.last(), STOP_COOLDOWN) > at {
        invalid("GUARD_COOLDOWN")
    } else if counted.len() >= STOP_LIMIT {
        invalid("GUARD_RATE_LIMIT")
    } else {
        Ok(counted.push(at))
    }
}

/// The claim once the guard's stop of `target` is recorded.
pub open spec fn stop_recorded(claim: ClaimView, target: ProcessView, nonce: Uuid, at: u64) -> Result<
    ClaimView,
> {
    if !(claim.phase is Reserved) || claim.guard_dispatch_id is Some || target.image_file
        != claim.image || target.user_sid != claim.user_sid || target.session_id
        != claim.session_id {
        invalid("GUARD_RESOURCE_MISMATCH")
    } else {
        match throttled(claim.guard_stops, at) {
            Err(e) => Err(e),
            Ok(guard_stops) => Ok(
                ClaimView { guard_stops, guard_dispatch_id: Some(nonce), ..claim },
            ),
        }
    }
}

/// What a launch is bound to.
#[derive(Debug)]
pub struct LaunchBinding {
    pub resource_key: Vec<u8>,
    pub image: FileIdentity,
    pub executable: String,
    pub session_id: u32,
}

/// A binding that is to this resource and program.
pub open spec fn bound(binding: LaunchBinding, key: Seq<u8>, claim: ClaimView) -> bool {
    binding.resource_key@ == key && binding.image == claim.image && binding.executable@
        == claim.executable && binding.session_id == claim.session_id
}

fn is_bound(binding: &LaunchBinding, key: &[u8], claim: &ResourceClaim) -> (r: bool)
    ensures
        r == bound(*binding, key@, claim@),
{
    text::same_bytes(binding.resource_key.as_slice(), key) && binding.image == claim.image
        && text::same(binding.executable.as_str(), claim.executable.as_str())
        && binding.session_id == claim.session_id
}

/// The claim once a launch is asked for.
pub open spec fn spawn_requested(
    claim: ClaimView,
    key: Seq<u8>,
    dispatch_id: Uuid,
    binding: LaunchBinding,
) -> Result<ClaimView> {
    if !(claim.phase is Reserved) {
        invalid("INVALID_RESOURCE_TRANSITION")
    } else if !bound(binding, key, claim) {
        invalid("RESOURCE_LAUNCH_BINDING_MISMATCH")
    } else {
        Ok(
            ClaimView {
                dispatch_id: Some(dispatch_id),
                phase: PhaseView::SpawnRequested,
                ..claim
            },
        )
    }
}

/// The claim once a process is confirmed.
pub open spec fn process_confirmed(claim: ClaimView, process: ProcessView) -> Result<ClaimView> {
    if !(claim.phase is SpawnRequested) {
        invalid("INVALID_RESOURCE_TRANSITION")
    } else {
        Ok(ClaimView { phase: PhaseView::Confirmed { process }, ..claim })
    }
}

/// The claim once it is given up.
pub open spec fn released(claim: ClaimView) -> ClaimView {
    ClaimView { phase: PhaseView::Released, ..claim }
}

/// Evidence that a dispatch created no process.
#[derive(Clone, Copy, Debug, PartialEq, Eq, Structural)]
pub struct NoProcessCreated {
    pub owner: ResourceOwner,
    pub dispatch_id: Uuid,
}

/// The claim once it is given up before a process was asked for, or why it is not.
pub open spec fn given_up_before_spawn(claim: ClaimView) -> Result<ClaimView> {
    if claim.phase is Reserved {
        Ok(released(claim))
    } else {
        invalid("RESOURCE_SPAWN_RESULT_UNKNOWN")
    }
}

/// The claim once it is given up on evidence that no process was created, or why it is not.
pub open spec fn given_up_on_evidence(
    claim: ClaimView,
    owner: ResourceOwner,
    evidence: NoProcessCreated,
) -> Result<ClaimView> {
    if claim.phase is SpawnRequested && evidence.owner == owner && claim.dispatch_id == Some(
        evidence.dispatch_id,
    ) {
        Ok(released(claim))
    } else {
        invalid("LAUNCH_NO_CREATION_EVIDENCE_MISMATCH")
    }
}

/// The claim once it is given up because its process has ended, or why it is not.
pub open spec fn given_up_after_exit(claim: ClaimView, running: Result<bool>) -> Result<ClaimView> {
    if !(claim.phase is Confirmed) {
        invalid("RESOURCE_SPAWN_RESULT_UNKNOWN")
    } else if !claim.local_confirmed {
        invalid("INSTANCE_RESOURCE_RECOVERY_REQUIRED")
    } else {
        match running {
            Err(e) => Err(e),
            Ok(true) => invalid("INSTANCE_STILL_RUNNING"),
            Ok(false) => Ok(released(claim)),
        }
    }
}

/// Reserving a resource for an attempt.
pub open spec fn reserving(reservation: ReservationView, owner: ResourceOwner) -> (ReservationView, Result<()>) {
    if reservation.claim is Some && !(reservation.claim->0.phase is Released) {
        (reservation, invalid("INSTANCE_RESOURCE_RECOVERY_REQUIRED"))
    } else {
        written(reservation, reserved_claim(reservation, owner))
    }
}

/// A stop that the guard intends: for whom, of what process, under what number.
#[derive(Debug)]
pub struct GuardStopDispatch {
    pub owner: ResourceOwner,
    pub target: ProcessIdentity,
    pub nonce: Uuid,
}

/// A stop that is recorded and may be carried out.
#[derive(Debug)]
pub struct AuthorizedGuardStop {
    pub dispatch: GuardStopDispatch,
}

/// A stop that was carried out.
#[derive(Debug)]
pub struct ObservedGuardStop {
    pub target: ProcessIdentity,
    pub nonce: Uuid,
    pub started_at: u64,
}

/// A launch that is intended.
#[derive(Debug)]
pub struct LaunchDispatch {
    pub owner: ResourceOwner,
    pub dispatch_id: Uuid,
    pub binding: LaunchBinding,
}

/// A launch that is recorded and may be carried out.
#[derive(Debug)]
pub struct AuthorizedSpawn {
    pub dispatch: LaunchDispatch,
}

/// A launch that was refused before it was dispatched.
#[derive(Debug)]
pub struct SpawnFailure {
    pub dispatch: LaunchDispatch,
    pub error: Error,
}

fn recent_times(stops: &[u64], at: u64) -> (r: Vec<u64>)
    ensures
        r@ == recent(stops@, at),
{
    let mut out: Vec<u64> = Vec::new();
    let mut i: usize = 0;
    proof {
        assert(out@ =~= stops@.take(0));
    }
    while i < stops.len()
        invariant
            i <= stops.len(),
            out@ == recent(stops@.take(i as int), at),
        decreases stops.len() - i,
    {
        proof {
            assert(stops@.take(i + 1).drop_last() =~= stops@.take(i as int));
        }
        let time: u64 = stops[i];
        if time.saturating_add(STOP_WINDOW) > at {
            out.push(time);
        }
        i += 1;
    }
    proof {
        assert(stops@.take(stops@.len() as int) =~= stops@);
    }
    out
}

fn throttle(stops: &[u64], at: u64) -> (r: Result<Vec<u64>>)
    ensures
        match throttled(stops@, at) {
            Err(e) => r == Err::<Vec<u64>, Error>(e),
            Ok(times) => r matches Ok(found) && found@ == times,
        },
{
    if stops.len() > 0 && stops[stops.len() - 1] > at {
        return Err(Error::Invalid("GUARD_CLOCK_ROLLBACK"));
    }
    let mut times = recent_times(stops, at);
    if times.len() > 0 && times[times.len() - 1].saturating_add(STOP_COOLDOWN) > at {
        return Err(Error::Invalid("GUARD_COOLDOWN"));
    }
    if times.len() >= STOP_LIMIT {
        return Err(Error::Invalid("GUARD_RATE_LIMIT"));
    }
    times.push(at);
    Ok(times)
}

impl ResourceReservation {
    /// The claim on the resource.
    pub fn claim(&self) -> (r: Option<&ResourceClaim>)
        ensures
            match (r, self.claim) {
                (Some(found), Some(claim)) => *found == claim,
                (None, None) => true,
                _ => false,
            },
    {
        match &self.claim {
            Some(claim) => Some(claim),
            None => None,
        }
    }

    fn require_owner(&self, owner: ResourceOwner) -> (r: Result<ResourceClaim>)
        ensures
            if owned(self@, owner) {
                r matches Ok(claim) && claim@ == self@.claim->0
            } else {
                r == invalid::<ResourceClaim>("INSTANCE_RESOURCE_OWNER_MISMATCH")
            },
    {
        match &self.claim {
            Some(claim) => {
                if claim.owner == owner {
                    return Ok(claim.copy());
                }
            },
            None => {},
        }
        Err(Error::Invalid("INSTANCE_RESOURCE_OWNER_MISMATCH"))
    }

    fn write(&mut self, claim: ResourceClaim) -> (r: Result<()>)
        ensures
            (final(self)@, r) == written(old(self)@, claim@),
    {
        validate(&claim, &self.resource, self.sid.as_str())?;
        if self.changed {
            return Err(Error::Invalid("INSTANCE_RESOURCE_CLAIM_CHANGED"));
        }
        self.claim = Some(claim);
        Ok(())
    }

    /// Reserve the resource for an attempt. A claim that was not given up has to be recovered first.
    pub fn reserve(&mut self, owner: ResourceOwner) -> (r: Result<()>)
        ensures
            (final(self)@, r) == reserving(old(self)@, owner),
    {
        let guard_stops = match &self.claim {
            Some(claim) => {
                if !matches!(claim.phase, ResourcePhase::Released) {
                    return Err(Error::Invalid("INSTANCE_RESOURCE_RECOVERY_REQUIRED"));
                }
                copy_times(claim.guard_stops.as_slice())
            },
            None => Vec::new(),
        };
        proof {
            assert(guard_stops@ =~= reserved_claim(self@, owner).guard_stops);
        }
        let claim = ResourceClaim {
            guard_stops,
            guard_dispatch_id: None,
            schema_version: 1,
            resource_key: text::copy_bytes(self.resource.key.as_slice()),
            user_sid: self.resource.user_sid.clone(),
            session_id: self.resource.session_id,
            executable: self.resource.executable.clone(),
            image: self.resource.image,
            owner,
            dispatch_id: None,
            local_confirmed: false,
            phase: ResourcePhase::Reserved,
        };
        self.write(claim)
    }

    /// Record a stop of a process of the resource.
    fn publish_guard_stop_record(
        &mut self,
        owner: ResourceOwner,
        target: &ProcessIdentity,
        nonce: Uuid,
        at: u64,
    ) -> (r: Result<()>)
        ensures
            (final(self)@, r) == changed_by(
                old(self)@,
                owner,
                stop_recorded(old(self)@.claim->0, target@, nonce, at),
            ),
    {
        let mut claim = self.require_owner(owner)?;
        if !matches!(claim.phase, ResourcePhase::Reserved) || claim.guard_dispatch_id.is_some()
            || target.image_file != claim.image || !text::same(
            target.user_sid.as_str(),
            claim.user_sid.as_str(),
        ) || target.session_id != claim.session_id {
            return Err(Error::Invalid("GUARD_RESOURCE_MISMATCH"));
        }
        claim.guard_stops = throttle(claim.guard_stops.as_slice(), at)?;
        claim.guard_dispatch_id = Some(nonce);
        self.write(claim)
    }

    /// Record that the guard is about to stop a process, which allows it to. `at` is the time; `None` says that
    /// the clock stands before its epoch.
    pub fn authorize_guard_stop(&mut self, dispatch: GuardStopDispatch, at: Option<u64>) -> (r: Result<
        AuthorizedGuardStop,
    >)
        ensures
            match at {
                None => r == invalid::<AuthorizedGuardStop>("CLOCK_BEFORE_EPOCH") && final(self)@
                    == old(self)@,
                Some(time) => {
                    let (after, result) = changed_by(
                        old(self)@,
                        dispatch.owner,
                        stop_recorded(
                            old(self)@.claim->0,
                            dispatch.target@,
                            dispatch.nonce,
                            time,
                        ),
                    );
                    &&& final(self)@ == after
                    &&& r == (match result {
                        Ok(_) => Ok(AuthorizedGuardStop { dispatch }),
                        Err(e) => Err(e),
                    })
                },
            },
    {
        let time: u64 = match at {
            Some(time) => time,
            None => {
                return Err(Error::Invalid("CLOCK_BEFORE_EPOCH"));
            },
        };
        self.publish_guard_stop_record(dispatch.owner, &dispatch.target, dispatch.nonce, time)?;
        Ok(AuthorizedGuardStop { dispatch })
    }

    /// Record a stop that the guard has already carried out.
    pub fn record_observed_guard_stop(
        &mut self,
        owner: ResourceOwner,
        receipt: &ObservedGuardStop,
    ) -> (r: Result<()>)
        ensures
            (final(self)@, r) == changed_by(
                old(self)@,
                owner,
                stop_recorded(
                    old(self)@.claim->0,
                    receipt.target@,
                    receipt.nonce,
                    receipt.started_at,
                ),
            ),
    {
        self.publish_guard_stop_record(owner, &receipt.target, receipt.nonce, receipt.started_at)
    }

    fn publish_spawn_intent(&mut self, dispatch: &LaunchDispatch) -> (r: Result<()>)
        ensures
            (final(self)@, r) == changed_by(
                old(self)@,
                dispatch.owner,
                spawn_requested(
                    old(self)@.claim->0,
                    old(self)@.resource.key,
                    dispatch.dispatch_id,
                    dispatch.binding,
                ),
            ),
    {
        let mut claim = self.require_owner(dispatch.owner)?;
        if !matches!(claim.phase, ResourcePhase::Reserved) {
            return Err(Error::Invalid("INVALID_RESOURCE_TRANSITION"));
        }
        if !is_bound(&dispatch.binding, self.resource.key.as_slice(), &claim) {
            return Err(Error::Invalid("RESOURCE_LAUNCH_BINDING_MISMATCH"));
        }
        claim.dispatch_id = Some(dispatch.dispatch_id);
        claim.phase = ResourcePhase::SpawnRequested;
        self.write(claim)
    }

    /// Record that a process is about to be created, which allows it to be. From here on the claim can only be
    /// given up on evidence. A refusal hands the dispatch back.
    pub fn authorize_spawn(&mut self, dispatch: LaunchDispatch) -> (r: core::result::Result<
        AuthorizedSpawn,
        SpawnFailure,
    >)
        ensures
            ({
                let (after, result) = changed_by(
                    old(self)@,
                    dispatch.owner,
                    spawn_requested(
                        old(self)@.claim->0,
                        old(self)@.resource.key,
                        dispatch.dispatch_id,
                        dispatch.binding,
                    ),
                );
                &&& final(self)@ == after
                &&& r == (match result {
                    Ok(_) => Ok(AuthorizedSpawn { dispatch }),
                    Err(error) => Err(SpawnFailure { dispatch, error }),
                })
            }),
    {
        match self.publish_spawn_intent(&dispatch) {
            Ok(()) => Ok(AuthorizedSpawn { dispatch }),
            Err(error) => Err(SpawnFailure { dispatch, error }),
        }
    }

    /// Record the process that was created.
    pub fn confirm(&mut self, owner: ResourceOwner, process: ProcessIdentity) -> (r: Result<()>)
        ensures
            (final(self)@, r) == changed_by(
                old(self)@,
                owner,
                process_confirmed(old(self)@.claim->0, process@),
            ),
    {
        let mut claim = self.require_owner(owner)?;
        if !matches!(claim.phase, ResourcePhase::SpawnRequested) {
            return Err(Error::Invalid("INVALID_RESOURCE_TRANSITION"));
        }
        claim.phase = ResourcePhase::Confirmed { process };
        self.write(claim)
    }

    /// Give up a claim for which no process was asked for.
    pub fn release_before_spawn(&mut self, owner: ResourceOwner) -> (r: Result<()>)
        ensures
            (final(self)@, r) == changed_by(
                old(self)@,
                owner,
                given_up_before_spawn(old(self)@.claim->0),
            ),
    {
        let mut claim = self.require_owner(owner)?;
        if !matches!(claim.phase, ResourcePhase::Reserved) {
            return Err(Error::Invalid("RESOURCE_SPAWN_RESULT_UNKNOWN"));
        }
        claim.phase = ResourcePhase::Released;
        self.write(claim)
    }

    /// Give up a claim on evidence that its own dispatch created no process.
    pub fn release_not_created(&mut self, owner: ResourceOwner, evidence: NoProcessCreated) -> (r: Result<
        (),
    >)
        ensures
            (final(self)@, r) == changed_by(
                old(self)@,
                owner,
                given_up_on_evidence(old(self)@.claim->0, owner, evidence),
            ),
    {
        let mut claim = self.require_owner(owner)?;
        let own = match claim.dispatch_id {
            Some(id) => id == evidence.dispatch_id,
            None => false,
        };
        if !matches!(claim.phase, ResourcePhase::SpawnRequested) || evidence.owner != owner || !own {
            return Err(Error::Invalid("LAUNCH_NO_CREATION_EVIDENCE_MISMATCH"));
        }
        claim.phase = ResourcePhase::Released;
        self.write(claim)
    }

    /// Give up a claim whose process has ended. `running` is what asking for the confirmed process came to.
    pub fn release_exited(&mut self, owner: ResourceOwner, running: Result<bool>) -> (r: Result<()>)
        ensures
            (final(self)@, r) == changed_by(
                old(self)@,
                owner,
                given_up_after_exit(old(self)@.claim->0, running),
            ),
    {
        let mut claim = self.require_owner(owner)?;
        if !matches!(claim.phase, ResourcePhase::Confirmed { .. }) {
            return Err(Error::Invalid("RESOURCE_SPAWN_RESULT_UNKNOWN"));
        }
        if !claim.local_confirmed {
            return Err(Error::Invalid("INSTANCE_RESOURCE_RECOVERY_REQUIRED"));
        }
        if running? {
            return Err(Error::Invalid("INSTANCE_STILL_RUNNING"));
        }
        claim.phase = ResourcePhase::Released;
        self.write(claim)
    }
}

/// How far a launch has come in the store's own journal. `Early` stands for every phase before a process was
/// asked for.
#[derive(Debug)]
pub enum LaunchPhase {
    Early,
    SpawnRequested,
    AwaitingIdentity,
    Indeterminate,
    Confirmed { process: ProcessIdentity },
    Failed { code: String },
}

/// A launch as the store's own journal records it.
#[derive(Debug)]
pub struct LaunchAttempt {
    pub id: Uuid,
    pub epoch: Uuid,
    pub dispatch_id: Option<Uuid>,
    pub binding: Option<LaunchBinding>,
    pub phase: LaunchPhase,
}

/// What a packaged launch came to, if its ticket was found and revoked.
#[derive(Debug)]
pub enum TicketOutcome {
    NoTicket,
    Unknown,
    Created { process: ProcessIdentity },
    NotCreated,
}

/// A launch whose process is not known.
pub open spec fn undecided(phase: LaunchPhase) -> bool {
    phase is SpawnRequested || phase is AwaitingIdentity || phase is Indeterminate
}

/// A launch that failed because no process was created.
pub open spec fn not_created(phase: LaunchPhase) -> bool {
    phase matches LaunchPhase::Failed { code } && code@ == "APPLICATION_NOT_CREATED"@
}

/// What the store's own journal has to do for a reconciliation: confirm the launch, record that it created
/// nothing, and take note that the claim agrees with it.
#[derive(Clone, Copy, Debug, PartialEq, Eq, Structural)]
pub struct Reconciled {
    pub confirm: bool,
    pub fail_not_created: bool,
    pub finish: bool,
}

/// Nothing to do.
pub open spec fn nothing() -> Reconciled {
    Reconciled { confirm: false, fail_not_created: false, finish: false }
}

/// A claim and a launch belong together: the same run, the same binding and, once a process was asked for,
/// the same dispatch.
pub open spec fn linked(claim: ClaimView, attempt: LaunchAttempt) -> bool {
    attempt.epoch == claim.owner.epoch && (attempt.binding matches Some(binding) && bound(
        binding,
        claim.resource_key,
        claim,
    )) && (claim.phase is Reserved || attempt.dispatch_id == claim.dispatch_id)
}

/// The last part of reconciliation: claim and launch are compared, and the one that knows more decides.
/// `failed` says that the launch was just found to have created nothing.
pub open spec fn settled(
    reservation: ReservationView,
    attempt: LaunchAttempt,
    failed: bool,
) -> (ReservationView, Reconciled, Result<()>) {
    let claim = reservation.claim->0;
    let base = Reconciled { confirm: false, fail_not_created: failed, finish: false };
    match claim.phase {
        PhaseView::Confirmed { process } => {
            let agreed = attempt.phase matches LaunchPhase::Confirmed { process: local } && local@
                == process;
            if failed || (!agreed && !undecided(attempt.phase)) {
                (reservation, base, invalid("RESOURCE_LAUNCH_BINDING_MISMATCH"))
            } else {
                let (after, result) = if claim.local_confirmed {
                    (reservation, Ok(()))
                } else {
                    written(reservation, ClaimView { local_confirmed: true, ..claim })
                };
                (after, Reconciled { confirm: !agreed, finish: result is Ok, ..base }, result)
            }
        },
        PhaseView::Released => (
            reservation,
            Reconciled {
                finish: failed || attempt.phase is Failed || attempt.phase is Confirmed,
                ..base
            },
            Ok(()),
        ),
        _ => if attempt.dispatch_id is Some && (failed || not_created(attempt.phase)) {
            let (after, result) = written(
                reservation,
                ClaimView {
                    phase: PhaseView::Released,
                    dispatch_id: attempt.dispatch_id,
                    ..claim
                },
            );
            (after, Reconciled { finish: result is Ok, ..base }, result)
        } else {
            (reservation, base, Ok(()))
        },
    }
}

/// Reconcile a claim with the launch that it names: the claim, what the journal has to do, and how it ended. What
/// the journal has to do before the claim is written for the last time is due even if that write is refused.
pub open spec fn reconciled(
    reservation: ReservationView,
    store_id: Uuid,
    attempt: Option<LaunchAttempt>,
    ticket: TicketOutcome,
) -> (ReservationView, Reconciled, Result<()>) {
    match (reservation.claim, attempt) {
        (Some(claim), Some(attempt)) => if claim.owner.store_id != store_id {
            (reservation, nothing(), Ok(()))
        } else if attempt.epoch == claim.owner.epoch && attempt.dispatch_id is None && attempt.phase
            is Failed && (claim.phase is Reserved || claim.phase is Released) {
            let (after, result) = if claim.phase is Released {
                (reservation, Ok(()))
            } else {
                written(reservation, released(claim))
            };
            (after, Reconciled { finish: result is Ok, ..nothing() }, result)
        } else if attempt.binding is None {
            (reservation, nothing(), Ok(()))
        } else if !linked(claim, attempt) {
            (reservation, nothing(), invalid("RESOURCE_LAUNCH_BINDING_MISMATCH"))
        } else if claim.phase is SpawnRequested && undecided(attempt.phase) {
            match ticket {
                TicketOutcome::Created { process } => {
                    let (after, result) = written(
                        reservation,
                        ClaimView { phase: PhaseView::Confirmed { process: process@ }, ..claim },
                    );
                    match result {
                        Err(e) => (after, nothing(), Err(e)),
                        Ok(_) => settled(after, attempt, false),
                    }
                },
                TicketOutcome::NotCreated => settled(reservation, attempt, true),
                _ => settled(reservation, attempt, false),
            }
        } else {
            settled(reservation, attempt, false)
        },
        _ => (reservation, nothing(), Ok(())),
    }
}

fn is_undecided(phase: &LaunchPhase) -> (r: bool)
    ensures
        r == undecided(*phase),
{
    matches!(
        phase,
        LaunchPhase::SpawnRequested | LaunchPhase::AwaitingIdentity | LaunchPhase::Indeterminate
    )
}

fn is_not_created(phase: &LaunchPhase) -> (r: bool)
    ensures
        r == not_created(*phase),
{
    match phase {
        LaunchPhase::Failed { code } => text::same(code.as_str(), "APPLICATION_NOT_CREATED"),
        _ => false,
    }
}

fn same_id(a: Option<Uuid>, b: Option<Uuid>) -> (r: bool)
    ensures
        r == (a == b),
{
    match (a, b) {
        (Some(x), Some(y)) => x == y,
        (None, None) => true,
        _ => false,
    }
}

fn is_linked(claim: &ResourceClaim, attempt: &LaunchAttempt) -> (r: bool)
    ensures
        r == linked(claim@, *attempt),
{
    if attempt.epoch != claim.owner.epoch {
        return false;
    }
    match &attempt.binding {
        None => {
            return false;
        },
        Some(binding) => {
            if !is_bound(binding, claim.resource_key.as_slice(), claim) {
                return false;
            }
        },
    }
    matches!(claim.phase, ResourcePhase::Reserved) || same_id(
        attempt.dispatch_id,
        claim.dispatch_id,
    )
}

impl ResourceReservation {
    fn settle(&mut self, attempt: &LaunchAttempt, failed: bool) -> (r: (Reconciled, Result<()>))
        requires
            old(self)@.claim is Some,
        ensures
            (final(self)@, r.0, r.1) == settled(old(self)@, *attempt, failed),
    {
        let base = Reconciled { confirm: false, fail_not_created: failed, finish: false };
        let claim = match &self.claim {
            Some(claim) => claim.copy(),
            None => {
                return (base, Ok(()));
            },
        };
        let kind: u8 = match &claim.phase {
            ResourcePhase::Confirmed { .. } => 0,
            ResourcePhase::Released => 1,
            _ => 2,
        };
        if kind == 0 {
            let agreed = match (&claim.phase, &attempt.phase) {
                (
                    ResourcePhase::Confirmed { process },
                    LaunchPhase::Confirmed { process: local },
                ) => local.same(process),
                _ => false,
            };
            if failed || (!agreed && !is_undecided(&attempt.phase)) {
                return (base, Err(Error::Invalid("RESOURCE_LAUNCH_BINDING_MISMATCH")));
            }
            let result = if claim.local_confirmed {
                Ok(())
            } else {
                let mut claim = claim;
                claim.local_confirmed = true;
                self.write(claim)
            };
            let told = Reconciled {
                confirm: !agreed,
                fail_not_created: failed,
                finish: result.is_ok(),
            };
            return (told, result);
        }
        if kind == 1 {
            let finish = failed || matches!(attempt.phase, LaunchPhase::Failed { .. }) || matches!(
                attempt.phase,
                LaunchPhase::Confirmed { .. }
            );
            return (Reconciled { confirm: false, fail_not_created: failed, finish }, Ok(()));
        }
        if attempt.dispatch_id.is_some() && (failed || is_not_created(&attempt.phase)) {
            let mut claim = claim;
            claim.phase = ResourcePhase::Released;
            claim.dispatch_id = attempt.dispatch_id;
            let result = self.write(claim);
            let told = Reconciled {
                confirm: false,
                fail_not_created: failed,
                finish: result.is_ok(),
            };
            return (told, result);
        }
        (base, Ok(()))
    }

    /// Bring a claim and the launch that it names to agreement, from whichever of the two knows more. Nothing
    /// is given up without evidence, and nothing is created. What the journal has to do is told however it ended.
    pub fn reconcile(
        &mut self,
        store_id: Uuid,
        attempt: Option<&LaunchAttempt>,
        ticket: TicketOutcome,
    ) -> (r: (Reconciled, Result<()>))
        ensures
            (final(self)@, r.0, r.1) == reconciled(
                old(self)@,
                store_id,
                (match attempt {
                    Some(found) => Some(*found),
                    None => None,
                }),
                ticket,
            ),
    {
        let nothing = Reconciled { confirm: false, fail_not_created: false, finish: false };
        let claim = match &self.claim {
            Some(claim) => claim.copy(),
            None => {
                return (nothing, Ok(()));
            },
        };
        let attempt = match attempt {
            Some(attempt) => attempt,
            None => {
                return (nothing, Ok(()));
            },
        };
        if claim.owner.store_id != store_id {
            return (nothing, Ok(()));
        }
        let reserved = matches!(claim.phase, ResourcePhase::Reserved);
        let requested = matches!(claim.phase, ResourcePhase::SpawnRequested);
        let given_up = matches!(claim.phase, ResourcePhase::Released);
        if attempt.epoch == claim.owner.epoch && attempt.dispatch_id.is_none() && matches!(
            attempt.phase,
            LaunchPhase::Failed { .. }
        ) && (reserved || given_up) {
            let result = if reserved {
                let mut claim = claim;
                claim.phase = ResourcePhase::Released;
                self.write(claim)
            } else {
                Ok(())
            };
            let told = Reconciled {
                confirm: false,
                fail_not_created: false,
                finish: result.is_ok(),
            };
            return (told, result);
        }
        if attempt.binding.is_none() {
            return (nothing, Ok(()));
        }
        if !is_linked(&claim, attempt) {
            return (nothing, Err(Error::Invalid("RESOURCE_LAUNCH_BINDING_MISMATCH")));
        }
        if requested && is_undecided(&attempt.phase) {
            match ticket {
                TicketOutcome::Created { process } => {
                    let mut claim = claim;
                    claim.phase = ResourcePhase::Confirmed { process };
                    match self.write(claim) {
                        Err(e) => {
                            return (nothing, Err(e));
                        },
                        Ok(_) => {},
                    }
                    return self.settle(attempt, false);
                },
                TicketOutcome::NotCreated => {
                    return self.settle(attempt, true);
                },
                _ => {},
            }
        }
        self.settle(attempt, false)
    }
}

/// A step of the handover between a claim and the store's own journal.
#[derive(Debug)]
pub enum Handover {
    /// Write this claim down.
    Claim(ResourceClaim),
    /// Confirm the launch in the journal.
    Confirm,
    /// Record in the journal that the launch created nothing.
    FailNotCreated,
    /// Take note in the journal that the claim agrees with it.
    Finish,
}

/// The contents of a step.
pub enum HandoverView {
    Claim(ClaimView),
    Confirm,
    FailNotCreated,
    Finish,
}

impl View for Handover {
    type V = HandoverView;

    open spec fn view(&self) -> HandoverView {
        match self {
            Handover::Claim(claim) => HandoverView::Claim(claim@),
            Handover::Confirm => HandoverView::Confirm,
            Handover::FailNotCreated => HandoverView::FailNotCreated,
            Handover::Finish => HandoverView::Finish,
        }
    }
}

/// The contents of steps, in order.
pub open spec fn handover_views(steps: Seq<Handover>) -> Seq<HandoverView> {
    steps.map_values(|step: Handover| step@)
}

/// A claim that a ticket confirmed: the process is written down before the journal is told of it, the agreement
/// of the journal only afterwards.
pub open spec fn newly_confirmed(before: ClaimView, after: ClaimView) -> bool {
    after.phase is Confirmed && !(before.phase is Confirmed)
}

/// A claim whose last change waits for the journal: the journal's agreement, or that the claim is given up.
pub open spec fn concluded(before: ClaimView, after: ClaimView) -> bool {
    (after.local_confirmed && !before.local_confirmed) || (after.phase is Released && !(
    before.phase is Released))
}

/// A step if it is due.
pub open spec fn step_if(due: bool, step: HandoverView) -> Seq<HandoverView> {
    if due {
        seq![step]
    } else {
        seq![]
    }
}

/// What a reconciliation asks of the claim and of the journal, in order.
pub open spec fn handover_steps(
    before: Option<ClaimView>,
    after: Option<ClaimView>,
    told: Reconciled,
) -> Seq<HandoverView> {
    let both = before is Some && after is Some;
    let a = before->0;
    let b = after->0;
    step_if(
        both && newly_confirmed(a, b),
        HandoverView::Claim(ClaimView { local_confirmed: a.local_confirmed, ..b }),
    ) + step_if(told.confirm, HandoverView::Confirm) + step_if(
        told.fail_not_created,
        HandoverView::FailNotCreated,
    ) + step_if(both && concluded(a, b), HandoverView::Claim(b)) + step_if(
        told.finish,
        HandoverView::Finish,
    )
}

/// What a reconciliation asks of the claim and of the journal, in order: `before` is the claim that was found,
/// `after` the one that the reconciliation came to.
pub fn handover(before: Option<&ResourceClaim>, after: Option<&ResourceClaim>, told: Reconciled) -> (r: Vec<
    Handover,
>)
    ensures
        handover_views(r@) == handover_steps(
            (match before {
                Some(claim) => Some(claim@),
                None => None,
            }),
            (match after {
                Some(claim) => Some(claim@),
                None => None,
            }),
            told,
        ),
{
    let mut steps: Vec<Handover> = Vec::new();
    match (before, after) {
        (Some(a), Some(b)) => {
            if matches!(b.phase, ResourcePhase::Confirmed { .. }) && !matches!(
                a.phase,
                ResourcePhase::Confirmed { .. }
            ) {
                let mut claim = b.copy();
                claim.local_confirmed = a.local_confirmed;
                steps.push(Handover::Claim(claim));
            }
        },
        _ => {},
    }
    if told.confirm {
        steps.push(Handover::Confirm);
    }
    if told.fail_not_created {
        steps.push(Handover::FailNotCreated);
    }
    match (before, after) {
        (Some(a), Some(b)) => {
            if (b.local_confirmed && !a.local_confirmed) || (matches!(b.phase, ResourcePhase::Released)
                && !matches!(a.phase, ResourcePhase::Released)) {
                steps.push(Handover::Claim(b.copy()));
            }
        },
        _ => {},
    }
    if told.finish {
        steps.push(Handover::Finish);
    }
    proof {
        assert(handover_views(steps@) =~= handover_steps(
            (match before {
                Some(claim) => Some(claim@),
                None => None,
            }),
            (match after {
                Some(claim) => Some(claim@),
                None => None,
            }),
            told,
        ));
    }
    steps
}

/// The claim that is written down once the first `n` steps are done.
pub open spec fn written_claim(claim: Option<ClaimView>, steps: Seq<HandoverView>, n: int) -> Option<
    ClaimView,
>
    decreases n,
{
    if n <= 0 {
        claim
    } else {
        match steps[n - 1] {
            HandoverView::Claim(next) => Some(next),
            _ => written_claim(claim, steps, n - 1),
        }
    }
}

/// The steps of a reconciliation lead from the claim that was found to the one that it came to, and keep the
/// order of the two journals: a claim says that the journal agrees only once a confirmation that is due is in the
/// journal, it is given up only once a failure that is due is there, and the journal takes note of the agreement
/// last.
pub proof fn handover_keeps_the_order(
    reservation: ReservationView,
    store_id: Uuid,
    attempt: Option<LaunchAttempt>,
    ticket: TicketOutcome,
    i: int,
)
    requires
        ({
            let (after, told, _) = reconciled(reservation, store_id, attempt, ticket);
            0 <= i < handover_steps(reservation.claim, after.claim, told).len()
        }),
    ensures
        ({
            let (after, told, _) = reconciled(reservation, store_id, attempt, ticket);
            let steps = handover_steps(reservation.claim, after.claim, told);
            &&& written_claim(reservation.claim, steps, steps.len() as int) == after.claim
            &&& steps[i] is Finish ==> i == steps.len() - 1
            &&& (steps[i] matches HandoverView::Claim(claim) && claim.local_confirmed
                && !reservation.claim->0.local_confirmed) && told.confirm ==> (exists|k: int|
                0 <= k < i && (#[trigger] steps[k]) is Confirm)
            &&& (steps[i] matches HandoverView::Claim(claim) && claim.phase is Released)
                && told.fail_not_created ==> (exists|k: int|
                0 <= k < i && (#[trigger] steps[k]) is FailNotCreated)
        }),
{
    let (after, told, _) = reconciled(reservation, store_id, attempt, ticket);
    reconciled_changes(reservation, store_id, attempt, ticket);
    handover_order(reservation.claim, after.claim, told, i);
}

proof fn reconciled_changes(
    reservation: ReservationView,
    store_id: Uuid,
    attempt: Option<LaunchAttempt>,
    ticket: TicketOutcome,
)
    ensures
        ({
            let after = reconciled(reservation, store_id, attempt, ticket).0;
            lasting(reservation.claim, after.claim)
        }),
{
}

/// A change that the steps of a handover can make.
spec fn lasting(before: Option<ClaimView>, after: Option<ClaimView>) -> bool {
    match (before, after) {
        (Some(a), Some(b)) => if concluded(a, b) {
            true
        } else if newly_confirmed(a, b) {
            a.local_confirmed == b.local_confirmed
        } else {
            a == b
        },
        _ => before == after,
    }
}

proof fn handover_order(before: Option<ClaimView>, after: Option<ClaimView>, told: Reconciled, i: int)
    requires
        lasting(before, after),
        0 <= i < handover_steps(before, after, told).len(),
    ensures
        ({
            let steps = handover_steps(before, after, told);
            &&& written_claim(before, steps, steps.len() as int) == after
            &&& steps[i] is Finish ==> i == steps.len() - 1
            &&& (steps[i] matches HandoverView::Claim(claim) && claim.local_confirmed
                && !before->0.local_confirmed) && told.confirm ==> (exists|k: int|
                0 <= k < i && (#[trigger] steps[k]) is Confirm)
            &&& (steps[i] matches HandoverView::Claim(claim) && claim.phase is Released)
                && told.fail_not_created ==> (exists|k: int|
                0 <= k < i && (#[trigger] steps[k]) is FailNotCreated)
        }),
{
    let both = before is Some && after is Some;
    let a = before->0;
    let b = after->0;
    let found = step_if(
        both && newly_confirmed(a, b),
        HandoverView::Claim(ClaimView { local_confirmed: a.local_confirmed, ..b }),
    );
    let confirm = step_if(told.confirm, HandoverView::Confirm);
    let failed = step_if(told.fail_not_created, HandoverView::FailNotCreated);
    let end = step_if(both && concluded(a, b), HandoverView::Claim(b));
    let steps = handover_steps(before, after, told);
    let at_confirm = found.len() as int;
    let at_failed = at_confirm + confirm.len();
    let at_end = at_failed + failed.len();
    let at_finish = at_end + end.len();
    assert(found.len() > 0 ==> steps[0] == found[0]);
    assert(told.confirm ==> steps[at_confirm] is Confirm);
    assert(told.fail_not_created ==> steps[at_failed] is FailNotCreated);
    assert(end.len() > 0 ==> steps[at_end] == end[0]);
    assert(told.finish ==> steps[at_finish] is Finish);
    assert(steps.len() == at_finish + if told.finish {
        1int
    } else {
        0int
    });
    reveal_with_fuel(written_claim, 6);
}

/// What taking a resource's lock brought.
#[derive(Clone, Copy, Debug, PartialEq, Eq, Structural)]
pub enum LockSeen {
    Taken,
    Busy,
    Failed { code: u32 },
}

/// The mark of the directory that holds the claims.
#[derive(Debug)]
pub struct Marker {
    pub format: String,
    pub schema_version: u32,
    pub owner_sid: String,
}

/// The directory that holds the claims of a user.
#[derive(Debug)]
pub struct ResourceRegistry {
    pub root: String,
    pub sid: String,
}

/// Why a mark is not that of a user's claims.
pub open spec fn marker_verdict(marker: Marker, sid: Seq<char>) -> Result<()> {
    if marker.format@ == "app-proxy-rust-resources"@ && marker.schema_version == 1
        && marker.owner_sid@ == sid {
        Ok(())
    } else {
        invalid("RESOURCE_REGISTRY_OWNER_MISMATCH")
    }
}

/// Why a resource may not be locked: it has to be the registry owner's, the caller has to be that owner, and
/// the session has to be the caller's unless an earlier launch is looked up.
pub open spec fn acquire_verdict(
    sid: Seq<char>,
    resource: ResourceView,
    caller: ProcessView,
    historical: bool,
) -> Result<()> {
    if sid == resource.user_sid && sid == caller.user_sid && (historical || resource.session_id
        == caller.session_id) {
        Ok(())
    } else {
        Err(Error::IdentityMismatch)
    }
}

/// What acquiring a resource comes to, from the lock and the claim that were found.
pub open spec fn acquisition(
    sid: Seq<char>,
    resource: ResourceView,
    caller: ProcessView,
    historical: bool,
    lock: LockSeen,
    found: Option<ClaimView>,
) -> Result<ReservationView> {
    match acquire_verdict(sid, resource, caller, historical) {
        Err(e) => Err(e),
        Ok(_) => match lock {
            LockSeen::Busy => invalid("INSTANCE_RESOURCE_BUSY"),
            LockSeen::Failed { code } => Err(Error::Io { code }),
            LockSeen::Taken => {
                let reservation = ReservationView { resource, sid, changed: false, claim: found };
                match found {
                    None => Ok(reservation),
                    Some(claim) => match claim_verdict(claim, resource, sid) {
                        Err(e) => Err(e),
                        Ok(_) => Ok(reservation),
                    },
                }
            },
        },
    }
}

impl ResourceRegistry {
    /// The directory that holds the claims, under the user's profile.
    pub fn root_below(profile: &str) -> (r: String)
        ensures
            r@ == path::pushed(path::pushed(profile@, "AppProxy"@), "resources"@),
    {
        path::push(path::push(profile, "AppProxy").as_str(), "resources")
    }

    /// Check where the claims are kept: an absolute path without a step upwards.
    pub fn check_root(root: &str) -> (r: Result<()>)
        ensures
            r == (if path::absolute(root@) && !path::goes_up(root@) {
                Ok(())
            } else {
                invalid::<()>("ABSOLUTE_RESOURCE_ROOT_REQUIRED")
            }),
    {
        if !path::is_absolute(root) || path::is_going_up(root) {
            return Err(Error::Invalid("ABSOLUTE_RESOURCE_ROOT_REQUIRED"));
        }
        Ok(())
    }

    /// Open the directory that holds a user's claims, by the mark that it bears.
    pub fn open_at(root: String, sid: String, marker: &Marker) -> (r: Result<ResourceRegistry>)
        ensures
            registry_opened(root, sid, *marker, r),
    {
        Self::check_root(root.as_str())?;
        if !text::same(marker.format.as_str(), "app-proxy-rust-resources")
            || marker.schema_version != 1 || !text::same(marker.owner_sid.as_str(), sid.as_str()) {
            return Err(Error::Invalid("RESOURCE_REGISTRY_OWNER_MISMATCH"));
        }
        Ok(ResourceRegistry { root, sid })
    }

    /// Check that a resource may be locked.
    pub fn check_acquire(
        &self,
        resource: &InstanceResource,
        caller: &ProcessIdentity,
        historical: bool,
    ) -> (r: Result<()>)
        ensures
            r == acquire_verdict(self.sid@, resource@, caller@, historical),
    {
        if !text::same(self.sid.as_str(), resource.user_sid.as_str()) || !text::same(
            self.sid.as_str(),
            caller.user_sid.as_str(),
        ) || (!historical && resource.session_id != caller.session_id) {
            return Err(Error::IdentityMismatch);
        }
        Ok(())
    }

    fn acquire_checked(
        &self,
        resource: InstanceResource,
        caller: &ProcessIdentity,
        historical: bool,
        lock: LockSeen,
        found: Option<ResourceClaim>,
    ) -> (r: Result<ResourceReservation>)
        ensures
            match acquisition(
                self.sid@,
                resource@,
                caller@,
                historical,
                lock,
                match found {
                    Some(claim) => Some(claim@),
                    None => None,
                },
            ) {
                Err(e) => r == Err::<ResourceReservation, Error>(e),
                Ok(reservation) => r matches Ok(held) && held@ == reservation,
            },
    {
        self.check_acquire(&resource, caller, historical)?;
        match lock {
            LockSeen::Taken => {},
            LockSeen::Busy => {
                return Err(Error::Invalid("INSTANCE_RESOURCE_BUSY"));
            },
            LockSeen::Failed { code } => {
                return Err(Error::Io { code });
            },
        }
        match &found {
            Some(claim) => {
                validate(claim, &resource, self.sid.as_str())?;
            },
            None => {},
        }
        Ok(
            ResourceReservation {
                resource,
                sid: self.sid.clone(),
                changed: false,
                claim: found,
            },
        )
    }

    /// Hold a resource of the caller's own session. `lock` is what taking its lock brought, `found` the claim
    /// that is recorded.
    pub fn acquire(
        &self,
        resource: InstanceResource,
        caller: &ProcessIdentity,
        lock: LockSeen,
        found: Option<ResourceClaim>,
    ) -> (r: Result<ResourceReservation>)
        ensures
            match acquisition(
                self.sid@,
                resource@,
                caller@,
                false,
                lock,
                match found {
                    Some(claim) => Some(claim@),
                    None => None,
                },
            ) {
                Err(e) => r == Err::<ResourceReservation, Error>(e),
                Ok(reservation) => r matches Ok(held) && held@ == reservation,
            },
    {
        self.acquire_checked(resource, caller, false, lock, found)
    }

    /// Bring a launch that the store's own journal holds to agreement with the claim on its resource, in
    /// whatever session it was. If the resource belongs to another attempt by now, only a launch that is
    /// decided is taken note of. The reservation is handed back with what the journal has to do and how it ended.
    pub fn reconcile_launch(
        &self,
        store_id: Uuid,
        owner_sid: &str,
        attempt: Option<&LaunchAttempt>,
        caller: &ProcessIdentity,
        lock: LockSeen,
        found: Option<ResourceClaim>,
        ticket: TicketOutcome,
    ) -> (r: Result<(Option<ResourceReservation>, Reconciled, Result<()>)>)
        ensures
            ({
                let claim = match found {
                    Some(claim) => Some(claim@),
                    None => None,
                };
                match looked_up(
                    self.sid@,
                    store_id,
                    owner_sid@,
                    (match attempt {
                        Some(attempt) => Some(*attempt),
                        None => None,
                    }),
                    caller@,
                    lock,
                    claim,
                    ticket,
                ) {
                    Err(e) => r == Err::<(Option<ResourceReservation>, Reconciled, Result<()>), Error>(
                        e,
                    ),
                    Ok((reservation, step, end)) => r matches Ok((held, told, result)) && told == step
                        && result == end && (
                    match (held, reservation) {
                        (Some(held), Some(reservation)) => held@ == reservation,
                        (None, None) => true,
                        _ => false,
                    }),
                }
            }),
    {
        let nothing = Reconciled { confirm: false, fail_not_created: false, finish: false };
        let attempt = match attempt {
            Some(attempt) => attempt,
            None => {
                return Err(Error::Invalid("LAUNCH_ATTEMPT_NOT_FOUND"));
            },
        };
        let resource = match &attempt.binding {
            None => {
                return Ok((None, nothing, Ok(())));
            },
            Some(binding) => InstanceResource {
                key: text::copy_bytes(binding.resource_key.as_slice()),
                user_sid: text::join(owner_sid, ""),
                session_id: binding.session_id,
                executable: binding.executable.clone(),
                image: binding.image,
                installation_image: None,
            },
        };
        proof {
            reveal_strlit("");
            assert(owner_sid@ + ""@ =~= owner_sid@);
            assert(resource@ == historical_resource(attempt.binding->0, owner_sid@));
        }
        let mut reservation = self.acquire_checked(resource, caller, true, lock, found)?;
        let expected = ResourceOwner { store_id, attempt_id: attempt.id, epoch: attempt.epoch };
        let foreign = match &reservation.claim {
            Some(claim) => claim.owner != expected,
            None => false,
        };
        if foreign {
            let finish = matches!(attempt.phase, LaunchPhase::Confirmed { .. }) || is_not_created(
                &attempt.phase,
            );
            return Ok(
                (
                    Some(reservation),
                    Reconciled { confirm: false, fail_not_created: false, finish },
                    Ok(()),
                ),
            );
        }
        let (step, result) = reservation.reconcile(store_id, Some(attempt), ticket);
        Ok((Some(reservation), step, result))
    }
}

/// The resource of an earlier launch, as its binding describes it.
pub open spec fn historical_resource(binding: LaunchBinding, owner_sid: Seq<char>) -> ResourceView {
    ResourceView {
        key: binding.resource_key@,
        user_sid: owner_sid,
        session_id: binding.session_id,
        executable: binding.executable@,
        image: binding.image,
        installation_image: None,
    }
}

/// What looking up the claim of an earlier launch comes to.
pub open spec fn looked_up(
    sid: Seq<char>,
    store_id: Uuid,
    owner_sid: Seq<char>,
    attempt: Option<LaunchAttempt>,
    caller: ProcessView,
    lock: LockSeen,
    found: Option<ClaimView>,
    ticket: TicketOutcome,
) -> Result<(Option<ReservationView>, Reconciled, Result<()>)> {
    match attempt {
        None => invalid("LAUNCH_ATTEMPT_NOT_FOUND"),
        Some(attempt) => match attempt.binding {
            None => Ok((None, nothing(), Ok(()))),
            Some(binding) => match acquisition(
                sid,
                historical_resource(binding, owner_sid),
                caller,
                true,
                lock,
                found,
            ) {
                Err(e) => Err(e),
                Ok(reservation) => {
                    let expected = ResourceOwner {
                        store_id,
                        attempt_id: attempt.id,
                        epoch: attempt.epoch,
                    };
                    if found is Some && found->0.owner != expected {
                        Ok(
                            (
                                Some(reservation),
                                Reconciled {
                                    finish: attempt.phase is Confirmed || not_created(
                                        attempt.phase,
                                    ),
                                    ..nothing()
                                },
                                Ok(()),
                            ),
                        )
                    } else {
                        let (after, step, result) = reconciled(
                            reservation,
                            store_id,
                            Some(attempt),
                            ticket,
                        );
                        Ok((Some(after), step, result))
                    }
                },
            },
        },
    }
}

/// A stop that is recorded keeps its distance from the one before, and at most so many fall into the window.
pub proof fn stops_are_throttled(stops: Seq<u64>, at: u64)
    requires
        times_valid(stops),
        at != 0,
        throttled(stops, at) is Ok,
    ensures
        ({
            let after = throttled(stops, at)->Ok_0;
            &&& times_valid(after)
            &&& after.last() == at
            &&& forall|i: int|
                0 <= i < after.len() - 1 ==> (#[trigger] after[i]) + STOP_COOLDOWN <= at && after[i]
                    + STOP_WINDOW > at
        }),
{
    let counted = recent(stops, at);
    recent_members(stops, at);
    let after = counted.push(at);
    assert forall|i: int| 0 <= i < counted.len() implies counted[i] + STOP_COOLDOWN <= at by {
        let last = counted.len() - 1;
        if i < last {
            assert(counted[i] < counted[last]);
        }
    }
    assert forall|i: int, j: int| 0 <= i < j < after.len() implies #[trigger] after[i]
        < #[trigger] after[j] by {
        if j < counted.len() {
            assert(counted[i] < counted[j]);
        } else {
            assert(counted[i] + STOP_COOLDOWN <= at);
        }
    }
}

proof fn recent_members(stops: Seq<u64>, at: u64)
    requires
        times_valid(stops),
    ensures
        recent(stops, at).len() <= stops.len(),
        forall|i: int|
            0 <= i < recent(stops, at).len() ==> later(
                #[trigger] recent(stops, at)[i],
                STOP_WINDOW,
            ) > at && recent(stops, at)[i] != 0,
        forall|i: int, j: int|
            0 <= i < j < recent(stops, at).len() ==> #[trigger] recent(stops, at)[i]
                < #[trigger] recent(stops, at)[j],
        forall|i: int|
            0 <= i < recent(stops, at).len() ==> stops.len() > 0 && #[trigger] recent(stops, at)[i]
                <= stops.last(),
    decreases stops.len(),
{
    if stops.len() > 0 {
        let front = stops.drop_last();
        assert forall|i: int, j: int| 0 <= i < j < front.len() implies #[trigger] front[i]
            < #[trigger] front[j] by {
            assert(stops[i] < stops[j]);
        }
        assert forall|i: int| 0 <= i < front.len() implies #[trigger] front[i] != 0 by {
            assert(stops[i] != 0);
        }
        recent_members(front, at);
        let r = recent(stops, at);
        let f = recent(front, at);
        if front.len() > 0 {
            assert(stops[front.len() - 1] < stops[stops.len() - 1]);
        }
        assert(stops[stops.len() - 1] != 0);
        assert forall|i: int, j: int| 0 <= i < j < r.len() implies #[trigger] r[i]
            < #[trigger] r[j] by {
            if j < f.len() {
                assert(f[i] < f[j]);
            } else {
                assert(f[i] <= front.last());
            }
        }
    }
}

/// Reconciling never gives up a claim whose process may run: a claim that asked for a process is only given
/// up when the launch, or its ticket, is known to have created none.
pub proof fn reconciliation_keeps_unknown_launches(
    reservation: ReservationView,
    store_id: Uuid,
    attempt: Option<LaunchAttempt>,
    ticket: TicketOutcome,
)
    requires
        reservation.claim is Some,
        reservation.claim->0.phase is SpawnRequested,
        reconciled(reservation, store_id, attempt, ticket).0.claim->0.phase is Released,
    ensures
        attempt is Some,
        not_created(attempt->0.phase) || ticket is NotCreated,
{
}

/// A reservation whose claim, if there is one, is sound.
pub open spec fn sound(reservation: ReservationView) -> bool {
    reservation.claim matches Some(claim) ==> claim_verdict(
        claim,
        reservation.resource,
        reservation.sid,
    ) is Ok
}

/// Whatever is done to a reservation, its claim stays sound: by its owner, by a new owner, by
/// reconciliation.
pub proof fn claims_stay_sound(
    reservation: ReservationView,
    owner: ResourceOwner,
    change: Result<ClaimView>,
    store_id: Uuid,
    attempt: Option<LaunchAttempt>,
    ticket: TicketOutcome,
)
    requires
        sound(reservation),
    ensures
        sound(changed_by(reservation, owner, change).0),
        sound(written(reservation, reserved_claim(reservation, owner)).0),
        sound(reconciled(reservation, store_id, attempt, ticket).0),
{
}

/// A launch after the store's own journal did what reconciliation asked for.
pub open spec fn followed(
    before: LaunchAttempt,
    after: LaunchAttempt,
    claim: Option<ClaimView>,
    step: Reconciled,
) -> bool {
    &&& after.id == before.id && after.epoch == before.epoch && after.dispatch_id
        == before.dispatch_id && after.binding == before.binding
    &&& if step.fail_not_created {
        not_created(after.phase)
    } else if step.confirm {
        after.phase matches LaunchPhase::Confirmed { process } && claim is Some && claim->0.phase
            == (PhaseView::Confirmed { process: process@ })
    } else {
        after.phase == before.phase
    }
}

/// Reconciling again, once the journal followed, changes nothing and asks the journal for nothing new.
pub proof fn reconciling_again_changes_nothing(
    reservation: ReservationView,
    store_id: Uuid,
    before: LaunchAttempt,
    after: LaunchAttempt,
    ticket: TicketOutcome,
)
    requires
        reconciled(reservation, store_id, Some(before), ticket).2 is Ok,
        followed(
            before,
            after,
            reconciled(reservation, store_id, Some(before), ticket).0.claim,
            reconciled(reservation, store_id, Some(before), ticket).1,
        ),
    ensures
        ({
            let (once, first, _) = reconciled(reservation, store_id, Some(before), ticket);
            let (twice, second, result) = reconciled(once, store_id, Some(after), ticket);
            &&& twice == once && result is Ok
            &&& !second.confirm && !second.fail_not_created && second.finish == first.finish
        }),
{
}

/// The key of an installation with its data.
pub open spec fn key_made(
    application: ResolvedApplication,
    caller: ProcessView,
    data: Option<FileIdentity>,
    r: Key,
) -> bool {
    &&& (r.version == 1)
    &&& (r.user_sid@ == caller.user_sid)
    &&& (r.session_id == caller.session_id)
    &&& (installation_key(r.installation, application))
    &&& (r.data == (match data {
        Some(directory) => DataKey::Isolated { directory },
        None => DataKey::Original,
    }))
}

/// The resource that an application is for a caller.
pub open spec fn resolved(
    application: ResolvedApplication,
    caller: ProcessView,
    encoded: Seq<u8>,
    r: ResourceView,
) -> bool {
    r == (ResourceView {
        key: sha256(encoded),
        user_sid: caller.user_sid,
        session_id: caller.session_id,
        executable: application.executable@,
        image: application.image,
        installation_image: if application.package is None {
            Some(application.image)
        } else {
            None
        },
    })
}

/// The registry of claims below a directory, or why it is not used.
pub open spec fn registry_opened(
    root: String,
    sid: String,
    marker: Marker,
    r: Result<ResourceRegistry>,
) -> bool {
    r == (if !path::absolute(root@) || path::goes_up(root@) {
        invalid::<ResourceRegistry>("ABSOLUTE_RESOURCE_ROOT_REQUIRED")
    } else {
        match marker_verdict(marker, sid@) {
            Err(e) => Err(e),
            Ok(_) => Ok(ResourceRegistry { root, sid }),
        }
    })
}

} // verus!
