//! Which copies of the guard are used, kept and replaced, in terms of what is recorded of them and found.
use vstd::prelude::*;
use vstd::string::*;
use crate::error::{Error, Result, invalid};
use crate::guard_deployment::{Deployment, HostSeen, InstallStep, ListenerRecord, Record, Source, Upgrade, UpgradeStep, deployment_opened, deployment_root, image_digest, install_plan, install_verdict, issuer_verdict, joined, listener_generation, local_executable, source_verdict, upgrade_plan};
use crate::ids::Uuid;
use crate::model::{FileIdentity, ProcessView};
use crate::path;
use crate::process_laws::wholly_same;
use crate::registration_laws::ends_in_exe;
use crate::text;

verus! {

/// A deployment is used only as it was recorded: of this user, this store and this generation, with a sound digest of
/// an image of a sound size, and with a host beside it that is the very file, of that size and that digest.
pub proof fn deployments_are_used_as_recorded(
    length: u64,
    record: Option<Record>,
    host: HostSeen,
    host_path: String,
    sid: Seq<char>,
    store: Uuid,
    generation: Uuid,
)
    ensures
        deployment_opened(length, record, host, host_path, sid, store, generation) matches Ok(found) ==> {
            &&& record == Some(found.record) && found.host_path == host_path && length <= 32768
            &&& store.bits != 0 && generation.bits != 0
            &&& found.record.store_id == store && found.record.generation == generation && found.record.owner_sid@ == sid
            &&& found.record.format@ == "app-proxy-rust-guard-deployment"@
            &&& 0 < found.record.image_size && found.record.image_sha256@.len() == 64
            &&& host.image.volume_serial == found.record.host_image.volume_serial && host.image.file_index
                == found.record.host_image.file_index
            &&& host.size == found.record.image_size && host.hash@ == found.record.image_sha256@
            &&& local_executable(found.record.coordinator_path@)
        },
{
}

/// An image is copied only from a plain executable on a local drive that is the very file that was expected.
pub proof fn images_are_the_expected_files(
    path: Seq<char>,
    actual_path: Seq<char>,
    regular: bool,
    image: FileIdentity,
    expected: FileIdentity,
)
    ensures
        source_verdict(path, actual_path, regular, image, expected) is Ok <==> local_executable(path)
            && local_executable(actual_path) && regular && image.volume_serial == expected.volume_serial
            && image.file_index == expected.file_index,
        regular && local_executable(path) && local_executable(actual_path) && image != expected ==> source_verdict(
            path,
            actual_path,
            regular,
            image,
            expected,
        ) == invalid::<()>("GUARD_SOURCE_CHANGED"),
        local_executable(path) ==> path::prefix(path) == path::Prefix::Disk || path::prefix(path)
            == path::Prefix::VerbatimDisk,
        local_executable(path) ==> (path::last_component(path) matches Some(name) && ends_in_exe(name)),
{
    reveal_strlit(".exe");
    assert(text::folded(".exe"@) =~= ".exe"@);
}

/// An image is taken only whole: the pieces that were read make up its size, and the size is a real one.
pub proof fn images_are_read_whole(size: u64, pieces: Seq<Vec<u8>>)
    ensures
        image_digest(size, pieces) is Ok ==> size > 0 && joined(pieces).len() == size,
        image_digest(size, pieces) is Ok ==> image_digest(size, pieces)->Ok_0 == crate::digest::hex(
            crate::digest::sha256(joined(pieces)),
        ),
{
}

/// A listener's record names a generation only if it is of this store and this user, and names a real one.
pub proof fn listener_records_name_their_own(
    length: u64,
    record: Option<ListenerRecord>,
    store: Uuid,
    sid: Seq<char>,
)
    ensures
        listener_generation(length, record, store, sid) matches Ok(generation) ==> length <= 32768 && generation.bits != 0
            && (record matches Some(found) && found.generation == generation && found.store == store && found.owner_sid@
            == sid && found.format@ == "app-proxy-rust-listener-v1"@),
        length <= 32768 && (record matches Some(found) && (found.store != store || found.owner_sid@ != sid))
            ==> listener_generation(length, record, store, sid) == invalid::<Uuid>("GUARD_LISTENER_RECORD_MISMATCH"),
{
}

/// An installation is asked for by a process of the installer's own user and session that is wholly the one that the
/// ticket names, and carried out by a host of the right name for a real store.
pub proof fn installers_know_who_asks(
    current: ProcessView,
    issuer: ProcessView,
    actual: ProcessView,
    store: Uuid,
    verdict: Result<()>,
    image_path: Seq<char>,
)
    ensures
        issuer_verdict(current, issuer, actual) is Ok <==> current.user_sid == issuer.user_sid && current.session_id
            == issuer.session_id && wholly_same(actual, issuer),
        install_verdict(store, verdict, image_path) is Ok <==> store.bits != 0 && verdict is Ok && (path::last_component(
            image_path,
        ) matches Some(name) && text::same_folded(name, "app-proxy-host.exe"@)),
{
}

/// An installed listener is kept if it was made from this very image: the same path, the same file, the same size and
/// digest. Another one is replaced only if the ticket names its generation, and only by an image in the same place.
pub proof fn listeners_are_replaced_by_name(existing: Option<Deployment>, source: Source, upgrade_from: Option<Uuid>)
    ensures
        install_plan(existing, source, upgrade_from) == Ok::<InstallStep, Error>(InstallStep::Stage) <==> existing
            is None,
        install_plan(existing, source, upgrade_from) == Ok::<InstallStep, Error>(InstallStep::Keep) <==> (
        existing matches Some(d) && d.record.coordinator_path@ == source.path@ && d.record.coordinator_image.volume_serial
            == source.image.volume_serial && d.record.coordinator_image.file_index == source.image.file_index
            && d.record.image_size == source.size && d.record.image_sha256@ == source.hash@),
        install_plan(existing, source, upgrade_from) == Ok::<InstallStep, Error>(InstallStep::Upgrade) ==> (
        existing matches Some(d) && upgrade_from == Some(d.record.generation) && d.record.coordinator_path@
            == source.path@),
{
}

/// An upgrade goes on only to the generation that its record leads to from the current one; a record that has led
/// there is forgotten, any other is a conflict.
pub proof fn upgrades_go_on_from_the_current_generation(plan: Upgrade, current: Uuid)
    ensures
        upgrade_plan(None, current) == Ok::<UpgradeStep, Error>(UpgradeStep::Stage),
        upgrade_plan(Some(plan), current) matches Ok(UpgradeStep::Resume { to }) ==> plan.version == 1 && plan.from
            == current && plan.to == to && to.bits != 0 && to != current,
        upgrade_plan(Some(plan), current) == Ok::<UpgradeStep, Error>(UpgradeStep::Forget) <==> plan.version == 1
            && plan.to == current && plan.from != current,
        plan.version == 1 && plan.from == current && plan.to.bits != 0 && plan.to != current ==> upgrade_plan(
            Some(plan),
            current,
        ) == Ok::<UpgradeStep, Error>(UpgradeStep::Resume { to: plan.to }),
        upgrade_plan(Some(plan), current) != Ok::<UpgradeStep, Error>(UpgradeStep::Stage),
{
}

/// Deployments lie below the user's profile, in a directory of this program, of the guard, of the user and of the
/// store.
pub proof fn deployments_lie_below_the_profile(profile: Seq<char>, sid: Seq<char>, store: Uuid)
    ensures
        deployment_root(profile, sid, store) == path::pushed(
            path::pushed(
                path::pushed(path::pushed(profile, "AppProxy"@), "guard"@),
                crate::digest::text_digest(sid).take(16),
            ),
            store.text(),
        ),
{
}

} // verus!
