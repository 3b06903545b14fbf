//! The protected copy of the host that the elevated listener runs from: how it is recorded, when it may be
//! used, and how it is replaced.
use vstd::prelude::*;
use vstd::string::*;
use crate::digest::{digest, digest_text, hex, hex_text, sha256, text_digest};
use crate::error::{Error, Result, invalid};
use crate::etw::prefix;
use crate::ids::{Uuid, uuid_text_injective, uuid_text_plain};
use crate::ifeo_rules::{names_exe, on_drive};
use crate::model::{FileIdentity, ProcessIdentity, ProcessView};
use crate::path;
use crate::path::last_component;
use crate::text;

verus! {

/// The version of the listener's protocol.
pub const PROTOCOL: u32 = 1;

/// The largest host image, in bytes.
pub const IMAGE_LIMIT: u64 = 268435456;

/// The largest record, in bytes.
pub const RECORD_LIMIT: u64 = 32768;

/// What a host image is expected to be.
#[derive(Debug)]
pub struct SourceExpectation {
    pub image: FileIdentity,
    pub size: u64,
    pub sha256: String,
}

/// A host image that was opened: where it lies, which file it is, its digest and its size.
#[derive(Debug)]
pub struct Source {
    pub path: String,
    pub image: FileIdentity,
    pub hash: String,
    pub size: u64,
}

/// The record of a deployment.
#[derive(Debug)]
pub struct Record {
    pub format: String,
    pub protocol: u32,
    pub store_id: Uuid,
    pub generation: Uuid,
    pub owner_sid: String,
    pub coordinator_path: String,
    pub coordinator_image: FileIdentity,
    pub host_image: FileIdentity,
    pub image_size: u64,
    pub image_sha256: String,
}

/// A deployment that was found intact.
#[derive(Debug)]
pub struct Deployment {
    pub record: Record,
    pub host_path: String,
}

/// A path to an executable on a local drive, without a step upwards.
pub open spec fn local_executable(path: Seq<char>) -> bool {
    on_drive(path) && !path::goes_up(path) && names_exe(path) && !path.contains('\0')
}

/// Check that a path names an executable on a local drive.
pub fn local_exe(path: &str) -> (r: Result<()>)
    ensures
        r == (if local_executable(path@) {
            Ok(())
        } else {
            invalid::<()>("GUARD_LOCAL_EXE_REQUIRED")
        }),
{
    if is_local_exe(path) {
        Ok(())
    } else {
        Err(Error::Invalid("GUARD_LOCAL_EXE_REQUIRED"))
    }
}

fn is_local_exe(path: &str) -> (r: bool)
    ensures
        r == local_executable(path@),
{
    let x = text::chars(path);
    let found = path::anchor(x.as_slice());
    crate::ifeo_rules::is_on_drive(found) && !path::is_going_up(path)
        && crate::ifeo_rules::is_names_exe(path) && !text::has_terminator(path)
}

/// Check the identifiers of a deployment.
pub fn ids(store: Uuid, generation: Uuid) -> (r: Result<()>)
    ensures
        r == (if store.bits != 0 && generation.bits != 0 {
            Ok(())
        } else {
            invalid::<()>("GUARD_DEPLOYMENT_ID_REQUIRED")
        }),
{
    if store.is_nil() || generation.is_nil() {
        return Err(Error::Invalid("GUARD_DEPLOYMENT_ID_REQUIRED"));
    }
    Ok(())
}

/// A digest as a record writes it.
pub open spec fn digest_form(text: Seq<char>) -> bool {
    text.len() == 64 && forall|i: int|
        0 <= i < text.len() ==> text::lower_hex_char(#[trigger] text[i])
}

/// A record that belongs to this user, store and generation.
pub open spec fn record_matches(record: Record, sid: Seq<char>, store: Uuid, generation: Uuid) -> bool {
    record.format@ == "app-proxy-rust-guard-deployment"@ && record.protocol == PROTOCOL
        && record.store_id == store && record.generation == generation && record.owner_sid@ == sid
        && 0 < record.image_size <= IMAGE_LIMIT && digest_form(record.image_sha256@)
}

/// Why a record may not be used.
pub open spec fn record_verdict(record: Record, sid: Seq<char>, store: Uuid, generation: Uuid) -> Result<
    (),
> {
    if store.bits == 0 || generation.bits == 0 {
        invalid("GUARD_DEPLOYMENT_ID_REQUIRED")
    } else if !record_matches(record, sid, store, generation) {
        invalid("GUARD_DEPLOYMENT_MISMATCH")
    } else if !local_executable(record.coordinator_path@) {
        invalid("GUARD_LOCAL_EXE_REQUIRED")
    } else {
        Ok(())
    }
}

/// Check a record.
pub fn validate_record(record: &Record, sid: &str, store: Uuid, generation: Uuid) -> (r: Result<()>)
    ensures
        r == record_verdict(*record, sid@, store, generation),
{
    ids(store, generation)?;
    if !text::same(record.format.as_str(), "app-proxy-rust-guard-deployment") || record.protocol
        != PROTOCOL || record.store_id != store || record.generation != generation || !text::same(
        record.owner_sid.as_str(),
        sid,
    ) || record.image_size == 0 || record.image_size > IMAGE_LIMIT || text::chars(
        record.image_sha256.as_str(),
    ).len() != 64 || !text::is_lower_hex(record.image_sha256.as_str()) {
        return Err(Error::Invalid("GUARD_DEPLOYMENT_MISMATCH"));
    }
    local_exe(record.coordinator_path.as_str())
}

/// The bytes of pieces put together.
pub open spec fn joined(pieces: Seq<Vec<u8>>) -> Seq<u8>
    decreases pieces.len(),
{
    if pieces.len() == 0 {
        Seq::empty()
    } else {
        joined(pieces.drop_last()) + pieces.last()@
    }
}

/// The digest of an image that is read in pieces: it may be neither empty nor too large, and must be as
/// large as its file says.
pub open spec fn image_digest(size: u64, pieces: Seq<Vec<u8>>) -> Result<Seq<char>> {
    if size == 0 || size > IMAGE_LIMIT || joined(pieces).len() > IMAGE_LIMIT {
        invalid("GUARD_IMAGE_SIZE")
    } else if joined(pieces).len() != size {
        invalid("GUARD_SOURCE_CHANGED")
    } else {
        Ok(hex(sha256(joined(pieces))))
    }
}

proof fn joined_grows(pieces: Seq<Vec<u8>>, n: int)
    requires
        0 <= n <= pieces.len(),
    ensures
        joined(pieces.take(n)).len() <= joined(pieces).len(),
    decreases pieces.len() - n,
{
    if n == pieces.len() {
        assert(pieces.take(n) =~= pieces);
    } else {
        assert(pieces.take(n + 1).drop_last() =~= pieces.take(n));
        joined_grows(pieces, n + 1);
    }
}

/// The digest of an image that is read in pieces.
pub fn hash(size: u64, pieces: &[Vec<u8>]) -> (r: Result<String>)
    ensures
        match image_digest(size, pieces@) {
            Err(e) => r == Err::<String, Error>(e),
            Ok(text) => r matches Ok(found) && found@ == text,
        },
{
    if size == 0 || size > IMAGE_LIMIT {
        return Err(Error::Invalid("GUARD_IMAGE_SIZE"));
    }
    let mut bytes: Vec<u8> = Vec::new();
    let mut i: usize = 0;
    proof {
        assert(bytes@ =~= joined(pieces@.take(0)));
    }
    while i < pieces.len()
        invariant
            i <= pieces.len(),
            0 < size <= IMAGE_LIMIT,
            bytes@ == joined(pieces@.take(i as int)),
            bytes@.len() <= IMAGE_LIMIT,
        decreases pieces.len() - i,
    {
        proof {
            assert(pieces@.take(i + 1).drop_last() =~= pieces@.take(i as int));
        }
        let piece = &pieces[i];
        if piece.len() as u64 > IMAGE_LIMIT - bytes.len() as u64 {
            proof {
                joined_grows(pieces@, i + 1);
            }
            return Err(Error::Invalid("GUARD_IMAGE_SIZE"));
        }
        let ghost before = bytes@;
        let mut k: usize = 0;
        while k < piece.len()
            invariant
                k <= piece.len(),
                bytes@ == before + piece@.take(k as int),
            decreases piece.len() - k,
        {
            bytes.push(piece[k]);
            k += 1;
            proof {
                assert(bytes@ =~= before + piece@.take(k as int));
            }
        }
        proof {
            assert(piece@.take(k as int) =~= piece@);
        }
        i += 1;
    }
    proof {
        assert(pieces@.take(pieces@.len() as int) =~= pieces@);
    }
    if bytes.len() as u64 != size {
        return Err(Error::Invalid("GUARD_SOURCE_CHANGED"));
    }
    Ok(hex_text(digest(bytes.as_slice()).as_slice()))
}

/// Why a host image that was opened may not be used.
pub open spec fn source_verdict(
    path: Seq<char>,
    actual_path: Seq<char>,
    regular: bool,
    image: FileIdentity,
    expected: FileIdentity,
) -> Result<()> {
    if !local_executable(path) {
        invalid("GUARD_LOCAL_EXE_REQUIRED")
    } else if !regular {
        invalid("GUARD_SOURCE_FILE_REQUIRED")
    } else if !local_executable(actual_path) {
        invalid("GUARD_LOCAL_EXE_REQUIRED")
    } else if image != expected {
        invalid("GUARD_SOURCE_CHANGED")
    } else {
        Ok(())
    }
}

/// Check the kind and identity of a host image that was opened.
pub fn check_source(
    path: &str,
    actual_path: &str,
    regular: bool,
    image: FileIdentity,
    expected: FileIdentity,
) -> (r: Result<()>)
    ensures
        r == source_verdict(path@, actual_path@, regular, image, expected),
{
    local_exe(path)?;
    if !regular {
        return Err(Error::Invalid("GUARD_SOURCE_FILE_REQUIRED"));
    }
    local_exe(actual_path)?;
    if image != expected {
        return Err(Error::Invalid("GUARD_SOURCE_CHANGED"));
    }
    Ok(())
}

impl Source {
    /// What is expected of this image when it is opened again.
    pub fn expectation(&self) -> (r: SourceExpectation)
        ensures
            r == (SourceExpectation { image: self.image, size: self.size, sha256: self.hash }),
    {
        SourceExpectation { image: self.image, size: self.size, sha256: self.hash.clone() }
    }

    /// Check that the image is the expected one.
    pub fn expected(self, expected: &SourceExpectation) -> (r: Result<Source>)
        ensures
            r == (if self.size == expected.size && self.hash@ == expected.sha256@ {
                Ok(self)
            } else {
                invalid::<Source>("GUARD_SOURCE_CHANGED")
            }),
    {
        if self.size != expected.size || !text::same(self.hash.as_str(), expected.sha256.as_str()) {
            return Err(Error::Invalid("GUARD_SOURCE_CHANGED"));
        }
        Ok(self)
    }
}

/// What is seen of a deployed host: which file it is, its size and its digest.
#[derive(Debug)]
pub struct HostSeen {
    pub image: FileIdentity,
    pub size: u64,
    pub hash: String,
}

/// A host that is exactly the recorded one.
pub open spec fn host_intact(host: HostSeen, record: Record) -> bool {
    host.image == record.host_image && host.size == record.image_size && host.hash@
        == record.image_sha256@
}

/// The deployment that was read, or why it may not be used.
pub open spec fn deployment_opened(
    length: u64,
    record: Option<Record>,
    host: HostSeen,
    host_path: String,
    sid: Seq<char>,
    store: Uuid,
    generation: Uuid,
) -> Result<Deployment> {
    if length > RECORD_LIMIT {
        invalid("GUARD_RECORD_SIZE")
    } else {
        match record {
            None => invalid("INVALID_GUARD_RECORD"),
            Some(record) => match record_verdict(record, sid, store, generation) {
                Err(e) => Err(e),
                Ok(_) => if host_intact(host, record) {
                    Ok(Deployment { record, host_path })
                } else {
                    invalid("GUARD_HOST_CHANGED")
                },
            },
        }
    }
}

impl Deployment {
    /// The generation of the deployment.
    pub fn generation(&self) -> (r: Uuid)
        ensures
            r == self.record.generation,
    {
        self.record.generation
    }

    /// The store that the deployment belongs to.
    pub fn store_id(&self) -> (r: Uuid)
        ensures
            r == self.record.store_id,
    {
        self.record.store_id
    }

    /// Where the deployed host lies.
    pub fn host_path(&self) -> (r: &str)
        ensures
            r@ == self.host_path@,
    {
        self.host_path.as_str()
    }

    /// Which file the deployed host is.
    pub fn host_image(&self) -> (r: FileIdentity)
        ensures
            r == self.record.host_image,
    {
        self.record.host_image
    }

    /// Open a deployment from what was read of it: the size of its record, the record if it could be
    /// decoded, and the host beside it.
    pub fn open_at(
        length: u64,
        record: Option<Record>,
        host: &HostSeen,
        host_path: String,
        sid: &str,
        store: Uuid,
        generation: Uuid,
    ) -> (r: Result<Deployment>)
        ensures
            r == deployment_opened(length, record, *host, host_path, sid@, store, generation),
    {
        if length > RECORD_LIMIT {
            return Err(Error::Invalid("GUARD_RECORD_SIZE"));
        }
        let record = match record {
            Some(record) => record,
            None => {
                return Err(Error::Invalid("INVALID_GUARD_RECORD"));
            },
        };
        validate_record(&record, sid, store, generation)?;
        if host.image != record.host_image || host.size != record.image_size || !text::same(
            host.hash.as_str(),
            record.image_sha256.as_str(),
        ) {
            return Err(Error::Invalid("GUARD_HOST_CHANGED"));
        }
        Ok(Deployment { record, host_path })
    }

    /// Check the coordinator's image against the deployment.
    pub fn coordinator(&self, source: Source) -> (r: Result<Source>)
        ensures
            r == (if source.size == self.record.image_size && source.hash@
                == self.record.image_sha256@ {
                Ok(source)
            } else {
                invalid::<Source>("GUARD_COORDINATOR_CHANGED")
            }),
    {
        if source.size != self.record.image_size || !text::same(
            source.hash.as_str(),
            self.record.image_sha256.as_str(),
        ) {
            return Err(Error::Invalid("GUARD_COORDINATOR_CHANGED"));
        }
        Ok(source)
    }

    /// Whether the deployment was made from exactly this image.
    pub fn matches_source(&self, source: &Source) -> (r: bool)
        ensures
            r == made_from(self.record, *source),
    {
        text::same(self.record.coordinator_path.as_str(), source.path.as_str())
            && self.record.coordinator_image == source.image && self.record.image_size
            == source.size && text::same(self.record.image_sha256.as_str(), source.hash.as_str())
    }
}

/// A record that was made from exactly this image.
pub open spec fn made_from(record: Record, source: Source) -> bool {
    record.coordinator_path@ == source.path@ && record.coordinator_image == source.image
        && record.image_size == source.size && record.image_sha256@ == source.hash@
}

/// The record of a copied generation. `copied` counts the bytes that were copied, `hash` is the digest of
/// the copy and `host_image` the file that it is.
pub fn copy_generation(
    source: Source,
    copied: u64,
    hash: &str,
    host_image: FileIdentity,
    sid: &str,
    store: Uuid,
    generation: Uuid,
) -> (r: Result<Record>)
    ensures
        copied_generation(source, copied, hash@, host_image, sid@, store, generation, r),
{
    if copied != source.size {
        return Err(Error::Invalid("GUARD_SOURCE_CHANGED"));
    }
    if !text::same(hash, source.hash.as_str()) {
        return Err(Error::Invalid("GUARD_COPY_MISMATCH"));
    }
    Ok(
        Record {
            format: "app-proxy-rust-guard-deployment".to_owned(),
            protocol: PROTOCOL,
            store_id: store,
            generation,
            owner_sid: sid.to_owned(),
            coordinator_path: source.path,
            coordinator_image: source.image,
            host_image,
            image_size: source.size,
            image_sha256: source.hash,
        },
    )
}

/// A random name for a new generation, and the directory that it is copied to.
pub fn stage(root: &str) -> (r: (Uuid, String))
    ensures
        r.0.random(),
        r.0.bits != 0,
        r.1@ == path::pushed(root@, r.0.text()),
{
    let generation = Uuid::new_v4();
    let place = path::push(root, generation.to_text().as_str());
    (generation, place)
}

/// A random name for the record of the listener while it is written.
pub fn listener_stage(root: &str) -> (r: (Uuid, String))
    ensures
        r.0.random(),
        r.1@ == path::pushed(root@, "listener-"@ + r.0.text() + ".tmp"@),
{
    let id = Uuid::new_v4();
    let name = text::join3("listener-", id.to_text().as_str(), ".tmp");
    (id, path::push(root, name.as_str()))
}

/// A generation that was copied from a sound image is accepted when it is opened again.
pub proof fn copied_generation_opens(
    record: Record,
    source: Source,
    sid: Seq<char>,
    store: Uuid,
    generation: Uuid,
)
    requires
        made_from(record, source),
        record.format@ == "app-proxy-rust-guard-deployment"@,
        record.protocol == PROTOCOL,
        record.store_id == store,
        record.generation == generation,
        record.owner_sid@ == sid,
        store.bits != 0,
        generation.bits != 0,
        0 < source.size <= IMAGE_LIMIT,
        digest_form(source.hash@),
        local_executable(source.path@),
    ensures
        record_verdict(record, sid, store, generation) is Ok,
{
}

/// The directory of a user's store below the profile: the deployments lie in it, one directory each.
pub open spec fn deployment_root(profile: Seq<char>, sid: Seq<char>, store: Uuid) -> Seq<char> {
    path::pushed(
        path::pushed(
            path::pushed(path::pushed(profile, "AppProxy"@), "guard"@),
            text_digest(sid).take(16),
        ),
        store.text(),
    )
}

/// A directory on the way to a store's deployments, and whether it may be made where it is missing.
#[derive(Debug)]
pub struct Place {
    pub path: String,
    pub create: bool,
}

/// The directories that lead to a store's deployments: the user's profile, which is never made, and the four
/// below it, which may be made if `create` says so. The last is the store's own.
pub fn location(profile: &str, sid: &str, store: Uuid, create: bool) -> (r: Result<Vec<Place>>)
    ensures
        if store.bits == 0 {
            r == invalid::<Vec<Place>>("GUARD_DEPLOYMENT_ID_REQUIRED")
        } else {
            r matches Ok(places) && places@.len() == 5 && places@[0].path@ == profile@
                && !places@[0].create && places@[1].path@ == path::pushed(profile@, "AppProxy"@)
                && places@[2].path@ == path::pushed(places@[1].path@, "guard"@)
                && places@[3].path@ == path::pushed(
                places@[2].path@,
                text_digest(sid@).take(16),
            ) && places@[4].path@ == deployment_root(profile@, sid@, store) && forall|i: int|
                1 <= i < 5 ==> (#[trigger] places@[i]).create == create
        },
{
    if store.is_nil() {
        return Err(Error::Invalid("GUARD_DEPLOYMENT_ID_REQUIRED"));
    }
    let user = digest_text(sid);
    let base = path::push(profile, "AppProxy");
    let guard = path::push(base.as_str(), "guard");
    let own = path::push(guard.as_str(), prefix(user.as_str(), 16).as_str());
    let root = path::push(own.as_str(), store.to_text().as_str());
    let mut places: Vec<Place> = Vec::new();
    places.push(Place { path: profile.to_owned(), create: false });
    places.push(Place { path: base, create });
    places.push(Place { path: guard, create });
    places.push(Place { path: own, create });
    places.push(Place { path: root, create });
    Ok(places)
}

/// Deployments of two stores of one user lie in directories of their own. (Their users' directories are told apart
/// by the digests of the users' identifiers.)
pub proof fn stores_have_their_own_directories(profile: Seq<char>, sid: Seq<char>, a: Uuid, b: Uuid)
    requires
        deployment_root(profile, sid, a) == deployment_root(profile, sid, b),
    ensures
        a == b,
{
    let base = path::pushed(
        path::pushed(path::pushed(profile, "AppProxy"@), "guard"@),
        text_digest(sid).take(16),
    );
    uuid_text_plain(a.bits);
    uuid_text_plain(b.bits);
    path::plain_names_are_appended(base, a.text());
    path::plain_names_are_appended(base, b.text());
    let x = deployment_root(profile, sid, a);
    let n = x.len() as int;
    assert(a.text() =~= x.skip(n - 36));
    assert(b.text() =~= x.skip(n - 36));
    uuid_text_injective(a.bits, b.bits);
}

#[verifier::truncate]
pub(crate) fn status_code(status: i32) -> (r: u32)
    ensures
        r == status as u32,
{
    status as u32
}

/// Why the one who asks for an installation is not who it says it is.
pub open spec fn issuer_verdict(current: ProcessView, issuer: ProcessView, actual: ProcessView) -> Result<()> {
    if current.user_sid != issuer.user_sid || current.session_id != issuer.session_id {
        invalid("GUARD_INSTALL_CONTEXT_MISMATCH")
    } else if actual != issuer {
        Err(Error::IdentityMismatch)
    } else {
        Ok(())
    }
}

/// Check that the one who asks for an installation is who it says it is: the same user and session as the
/// installer, and the process that the request names.
pub fn verify_issuer(current: &ProcessIdentity, issuer: &ProcessIdentity, actual: &ProcessIdentity) -> (r:
    Result<()>)
    ensures
        r == issuer_verdict(current@, issuer@, actual@),
{
    if !text::same(current.user_sid.as_str(), issuer.user_sid.as_str()) || current.session_id
        != issuer.session_id {
        return Err(Error::Invalid("GUARD_INSTALL_CONTEXT_MISMATCH"));
    }
    if !actual.same(issuer) {
        return Err(Error::IdentityMismatch);
    }
    Ok(())
}

/// What waiting for a process without delay brought.
#[derive(Clone, Copy, Debug, PartialEq, Eq, Structural)]
pub enum Alive {
    Running,
    Exited,
    Failed { code: u32 },
}

/// Check that the one who asked for an installation still runs.
pub fn issuer_alive(wait: Alive) -> (r: Result<()>)
    ensures
        r == (match wait {
            Alive::Running => Ok(()),
            Alive::Exited => invalid("GUARD_INSTALL_ISSUER_EXITED"),
            Alive::Failed { code } => Err(Error::Windows { operation: "CheckGuardIssuer", code }),
        }),
{
    match wait {
        Alive::Running => Ok(()),
        Alive::Exited => Err(Error::Invalid("GUARD_INSTALL_ISSUER_EXITED")),
        Alive::Failed { code } => Err(Error::Windows { operation: "CheckGuardIssuer", code }),
    }
}

/// Why an installation may not begin.
pub open spec fn install_verdict(store: Uuid, issuer: Result<()>, image_path: Seq<char>) -> Result<()> {
    if store.bits == 0 {
        invalid("GUARD_DEPLOYMENT_ID_REQUIRED")
    } else if issuer is Err {
        issuer
    } else {
        match last_component(image_path) {
            Some(name) if text::same_folded(name, "app-proxy-host.exe"@) => Ok(()),
            _ => invalid("GUARD_HOST_EXECUTABLE_REQUIRED"),
        }
    }
}

/// Check that an installation may begin: a store, a verified issuer, and a host that runs from its own
/// executable.
pub fn check_install(store: Uuid, issuer: Result<()>, image_path: &str) -> (r: Result<()>)
    ensures
        r == install_verdict(store, issuer, image_path@),
{
    if store.is_nil() {
        return Err(Error::Invalid("GUARD_DEPLOYMENT_ID_REQUIRED"));
    }
    issuer?;
    match path::file_name(image_path) {
        Some(name) => {
            if text::eq_ignore_ascii_case(name.as_str(), "app-proxy-host.exe") {
                return Ok(());
            }
        },
        None => {},
    }
    Err(Error::Invalid("GUARD_HOST_EXECUTABLE_REQUIRED"))
}

/// The record of which generation the listener runs from.
#[derive(Debug)]
pub struct ListenerRecord {
    pub format: String,
    pub store: Uuid,
    pub owner_sid: String,
    pub generation: Uuid,
}

/// A listener's record that belongs to this user and store.
pub open spec fn listener_matches(record: ListenerRecord, store: Uuid, sid: Seq<char>) -> bool {
    record.format@ == "app-proxy-rust-listener-v1"@ && record.store == store && record.owner_sid@
        == sid && record.generation.bits != 0
}

/// The generation that a listener's record names, or why the record may not be used.
pub open spec fn listener_generation(
    length: u64,
    record: Option<ListenerRecord>,
    store: Uuid,
    sid: Seq<char>,
) -> Result<Uuid> {
    if length > RECORD_LIMIT {
        invalid("GUARD_LISTENER_RECORD_SIZE")
    } else {
        match record {
            None => invalid("INVALID_GUARD_LISTENER_RECORD"),
            Some(found) => if listener_matches(found, store, sid) {
                Ok(found.generation)
            } else {
                invalid("GUARD_LISTENER_RECORD_MISMATCH")
            },
        }
    }
}

/// The generation that a listener's record names. `record` is `None` when the bytes are no record.
pub fn read_record(length: u64, record: Option<ListenerRecord>, store: Uuid, sid: &str) -> (r: Result<
    Uuid,
>)
    ensures
        r == listener_generation(length, record, store, sid@),
{
    if length > RECORD_LIMIT {
        return Err(Error::Invalid("GUARD_LISTENER_RECORD_SIZE"));
    }
    match record {
        None => Err(Error::Invalid("INVALID_GUARD_LISTENER_RECORD")),
        Some(found) => {
            if !text::same(found.format.as_str(), "app-proxy-rust-listener-v1") || found.store
                != store || !text::same(found.owner_sid.as_str(), sid)
                || found.generation.is_nil() {
                return Err(Error::Invalid("GUARD_LISTENER_RECORD_MISMATCH"));
            }
            Ok(found.generation)
        },
    }
}

/// The record that lets the listener run from a generation.
pub fn listener_record(store: Uuid, sid: &str, generation: Uuid) -> (r: ListenerRecord)
    ensures
        r.format@ == "app-proxy-rust-listener-v1"@,
        r.store == store,
        r.owner_sid@ == sid@,
        r.generation == generation,
{
    ListenerRecord {
        format: "app-proxy-rust-listener-v1".to_owned(),
        store,
        owner_sid: sid.to_owned(),
        generation,
    }
}

/// A file or directory that does not exist means that no listener is installed; every other failure
/// stays what it is.
pub open spec fn absence(error: Error) -> Error {
    match error {
        Error::Windows { code, .. } if code == 2 || code == 3 => Error::Invalid(
            "GUARD_LISTENER_MISSING",
        ),
        Error::Io { code } if code == 2 || code == 3 => Error::Invalid("GUARD_LISTENER_MISSING"),
        other => other,
    }
}

/// Tell an object that does not exist from every other failure.
pub fn missing(error: Error) -> (r: Error)
    ensures
        r == absence(error),
{
    match error {
        Error::Windows { operation, code } => if code == 2 || code == 3 {
            Error::Invalid("GUARD_LISTENER_MISSING")
        } else {
            Error::Windows { operation, code }
        },
        Error::Io { code } => if code == 2 || code == 3 {
            Error::Invalid("GUARD_LISTENER_MISSING")
        } else {
            Error::Io { code }
        },
        other => other,
    }
}

/// What an installation has to do.
#[derive(Clone, Copy, Debug, PartialEq, Eq, Structural)]
pub enum InstallStep {
    Stage,
    Keep,
    Upgrade,
}

/// What an installation has to do about the listener that is installed. The same release is kept; another
/// one is replaced only when the request names the generation that it replaces, and only by a release
/// in the same place.
pub open spec fn install_plan(
    existing: Option<Deployment>,
    source: Source,
    upgrade_from: Option<Uuid>,
) -> Result<InstallStep> {
    match existing {
        None => Ok(InstallStep::Stage),
        Some(deployment) => if made_from(deployment.record, source) {
            Ok(InstallStep::Keep)
        } else if upgrade_from != Some(deployment.record.generation) {
            invalid("GUARD_LISTENER_RELEASE_CONFLICT")
        } else if deployment.record.coordinator_path@ != source.path@ {
            invalid("GUARD_UPDATE_DIRECTORY_CHANGED")
        } else {
            Ok(InstallStep::Upgrade)
        },
    }
}

/// Decide what an installation has to do about the listener that is installed.
pub fn install_listener(existing: Option<&Deployment>, source: &Source, upgrade_from: Option<Uuid>) -> (r:
    Result<InstallStep>)
    ensures
        r == install_plan(
            (match existing {
                Some(deployment) => Some(*deployment),
                None => None,
            }),
            *source,
            upgrade_from,
        ),
{
    match existing {
        None => Ok(InstallStep::Stage),
        Some(deployment) => {
            if deployment.matches_source(source) {
                return Ok(InstallStep::Keep);
            }
            let named = match upgrade_from {
                Some(id) => id == deployment.record.generation,
                None => false,
            };
            if !named {
                return Err(Error::Invalid("GUARD_LISTENER_RELEASE_CONFLICT"));
            }
            if !text::same(deployment.record.coordinator_path.as_str(), source.path.as_str()) {
                return Err(Error::Invalid("GUARD_UPDATE_DIRECTORY_CHANGED"));
            }
            Ok(InstallStep::Upgrade)
        },
    }
}

/// Check that the listener's record names the generation that was just staged.
pub fn check_intent(observed: Uuid, staged: Uuid) -> (r: Result<()>)
    ensures
        r == (if observed == staged {
            Ok(())
        } else {
            invalid::<()>("GUARD_LISTENER_INTENT_CHANGED")
        }),
{
    if observed != staged {
        return Err(Error::Invalid("GUARD_LISTENER_INTENT_CHANGED"));
    }
    Ok(())
}

/// The record of an upgrade under way.
#[derive(Clone, Copy, Debug, PartialEq, Eq, Structural)]
pub struct Upgrade {
    pub version: u32,
    pub from: Uuid,
    pub to: Uuid,
}

/// What an upgrade has to do next: forget a record of an upgrade that was completed, go on to the
/// generation that was staged, or stage one.
#[derive(Clone, Copy, Debug, PartialEq, Eq, Structural)]
pub enum UpgradeStep {
    Forget,
    Resume { to: Uuid },
    Stage,
}

/// What an upgrade from the generation `current` has to do next.
pub open spec fn upgrade_plan(pending: Option<Upgrade>, current: Uuid) -> Result<UpgradeStep> {
    match pending {
        None => Ok(UpgradeStep::Stage),
        Some(plan) => if plan.version == 1 && plan.to == current && plan.from != plan.to {
            Ok(UpgradeStep::Forget)
        } else if plan.version != 1 || plan.from != current || plan.to.bits == 0 || plan.to
            == plan.from {
            invalid("GUARD_UPGRADE_CONFLICT")
        } else {
            Ok(UpgradeStep::Resume { to: plan.to })
        },
    }
}

/// Decide what an upgrade has to do next.
pub fn upgrade_listener(pending: Option<Upgrade>, current: Uuid) -> (r: Result<UpgradeStep>)
    ensures
        r == upgrade_plan(pending, current),
{
    match pending {
        None => Ok(UpgradeStep::Stage),
        Some(plan) => {
            if plan.version == 1 && plan.to == current && plan.from != plan.to {
                return Ok(UpgradeStep::Forget);
            }
            if plan.version != 1 || plan.from != current || plan.to.is_nil() || plan.to
                == plan.from {
                return Err(Error::Invalid("GUARD_UPGRADE_CONFLICT"));
            }
            Ok(UpgradeStep::Resume { to: plan.to })
        },
    }
}

/// An upgrade that is interrupted is taken up where it stopped: before the listener's record was replaced
/// it goes on to the same generation, afterwards its own record is forgotten.
pub proof fn interrupted_upgrade_resumes(from: Uuid, to: Uuid)
    requires
        from.bits != 0,
        to.bits != 0,
        from != to,
    ensures
        ({
            let plan = Upgrade { version: 1, from, to };
            &&& upgrade_plan(Some(plan), from) == Ok::<UpgradeStep, Error>(
                UpgradeStep::Resume { to },
            )
            &&& upgrade_plan(Some(plan), to) == Ok::<UpgradeStep, Error>(UpgradeStep::Forget)
        }),
{
}

/// What carrying out an upgrade asks for, in order: the plan is written down, the old generation's task is retired
/// while the issuer lives, the listener's record is replaced, the new generation's task is registered and
/// verified, and the plan is removed.
#[derive(Clone, Copy, Debug, PartialEq, Eq, Structural)]
pub enum UpgradeAction {
    WritePlan,
    AskIssuer,
    Retire,
    AskIssuerAgain,
    ReplaceRecord,
    Register,
    Verify,
    RemovePlan,
    Finished,
}

/// What comes behind an action that succeeded.
pub open spec fn upgrade_successor(done: UpgradeAction) -> UpgradeAction {
    match done {
        UpgradeAction::WritePlan => UpgradeAction::AskIssuer,
        UpgradeAction::AskIssuer => UpgradeAction::Retire,
        UpgradeAction::Retire => UpgradeAction::AskIssuerAgain,
        UpgradeAction::AskIssuerAgain => UpgradeAction::ReplaceRecord,
        UpgradeAction::ReplaceRecord => UpgradeAction::Register,
        UpgradeAction::Register => UpgradeAction::Verify,
        UpgradeAction::Verify => UpgradeAction::RemovePlan,
        UpgradeAction::RemovePlan => UpgradeAction::Finished,
        UpgradeAction::Finished => UpgradeAction::Finished,
    }
}

/// The action with which an upgrade begins: a staged generation still needs its plan, one that is taken up again
/// has it.
pub fn upgrade_begin(resumed: bool) -> (r: UpgradeAction)
    ensures
        r == (if resumed {
            UpgradeAction::AskIssuer
        } else {
            UpgradeAction::WritePlan
        }),
{
    if resumed {
        UpgradeAction::AskIssuer
    } else {
        UpgradeAction::WritePlan
    }
}

/// What an upgrade asks for next, from what the last action came to. A failure ends it.
pub fn upgrade_next(done: UpgradeAction, outcome: Result<()>) -> (r: Result<UpgradeAction>)
    ensures
        r == (match outcome {
            Err(e) => Err(e),
            Ok(_) => Ok(upgrade_successor(done)),
        }),
{
    outcome?;
    Ok(
        match done {
            UpgradeAction::WritePlan => UpgradeAction::AskIssuer,
            UpgradeAction::AskIssuer => UpgradeAction::Retire,
            UpgradeAction::Retire => UpgradeAction::AskIssuerAgain,
            UpgradeAction::AskIssuerAgain => UpgradeAction::ReplaceRecord,
            UpgradeAction::ReplaceRecord => UpgradeAction::Register,
            UpgradeAction::Register => UpgradeAction::Verify,
            UpgradeAction::Verify => UpgradeAction::RemovePlan,
            UpgradeAction::RemovePlan => UpgradeAction::Finished,
            UpgradeAction::Finished => UpgradeAction::Finished,
        },
    )
}

/// What an upgrade leaves behind: its plan, the generation that the listener's record names, and which
/// generations' tasks are registered.
pub struct Upgraded {
    pub plan: Option<Upgrade>,
    pub generation: Uuid,
    pub old_task: bool,
    pub new_task: bool,
}

/// What an action of the upgrade leaves behind.
pub open spec fn upgrade_effect(before: Upgraded, action: UpgradeAction, from: Uuid, to: Uuid) -> Upgraded {
    match action {
        UpgradeAction::WritePlan => Upgraded { plan: Some(Upgrade { version: 1, from, to }), ..before },
        UpgradeAction::Retire => Upgraded { old_task: false, ..before },
        UpgradeAction::ReplaceRecord => Upgraded { generation: to, ..before },
        UpgradeAction::Register => Upgraded { new_task: true, ..before },
        UpgradeAction::RemovePlan => Upgraded { plan: None, ..before },
        _ => before,
    }
}

/// An upgrade after `n` actions that succeeded: what it asks for next, and what it has left behind.
pub open spec fn upgrade_reached(n: nat, from: Uuid, to: Uuid) -> (UpgradeAction, Upgraded)
    decreases n,
{
    if n == 0 {
        (
            UpgradeAction::WritePlan,
            Upgraded { plan: None, generation: from, old_task: true, new_task: false },
        )
    } else {
        let (action, state) = upgrade_reached((n - 1) as nat, from, to);
        (upgrade_successor(action), upgrade_effect(state, action, from, to))
    }
}

/// Wherever an upgrade is interrupted, its plan and the listener's record tell how to go on. Until the plan is
/// written, nothing has changed. From then on until the record is replaced, the same generation is taken up again.
/// Afterwards the plan is found completed, and the record names the new generation. The old task is retired only
/// under a plan, the new one registered only once the record names it, and the plan goes last.
pub proof fn upgrades_resume_wherever_they_stop(n: nat, from: Uuid, to: Uuid)
    requires
        from.bits != 0,
        to.bits != 0,
        from != to,
    ensures
        ({
            let (action, state) = upgrade_reached(n, from, to);
            let told = upgrade_plan(state.plan, state.generation);
            &&& action == UpgradeAction::WritePlan ==> state == (Upgraded {
                plan: None,
                generation: from,
                old_task: true,
                new_task: false,
            })
            &&& state.plan is Some && state.generation == from ==> told == Ok::<UpgradeStep, Error>(
                UpgradeStep::Resume { to },
            )
            &&& state.plan is Some && state.generation != from ==> told == Ok::<UpgradeStep, Error>(
                UpgradeStep::Forget,
            )
            &&& state.generation == from || state.generation == to
            &&& state.generation == to ==> !state.old_task
            &&& !state.old_task && !state.new_task ==> state.plan is Some
            &&& state.new_task ==> state.generation == to
            &&& action == UpgradeAction::Finished ==> state == (Upgraded {
                plan: None,
                generation: to,
                old_task: false,
                new_task: true,
            })
        }),
        n >= 8 ==> upgrade_reached(n, from, to).0 == UpgradeAction::Finished,
    decreases n,
{
    if n > 8 {
        upgrades_resume_wherever_they_stop((n - 1) as nat, from, to);
    } else {
        reveal_with_fuel(upgrade_reached, 10);
    }
}

/// The record of an upgrade, from what was read: `None` inside says that the bytes are no record.
pub fn read_upgrade(found: Result<(u64, Option<Upgrade>)>) -> (r: Result<Option<Upgrade>>)
    ensures
        upgrade_read(found, r),
{
    match found {
        Err(Error::Windows { operation, code }) => if code == 2 || code == 3 {
            Ok(None)
        } else {
            Err(Error::Windows { operation, code })
        },
        Err(Error::Io { code }) => if code == 2 || code == 3 {
            Ok(None)
        } else {
            Err(Error::Io { code })
        },
        Err(e) => Err(e),
        Ok((length, plan)) => {
            if length > RECORD_LIMIT {
                return Err(Error::Invalid("GUARD_UPGRADE_RECORD_SIZE"));
            }
            match plan {
                None => Err(Error::Malformed),
                Some(plan) => Ok(Some(plan)),
            }
        },
    }
}

/// Check the generation that an upgrade goes on to.
pub fn check_upgrade_source(next: &Deployment, source: &Source) -> (r: Result<()>)
    ensures
        r == (if made_from(next.record, *source) {
            Ok(())
        } else {
            invalid::<()>("GUARD_UPGRADE_SOURCE_CHANGED")
        }),
{
    if !next.matches_source(source) {
        return Err(Error::Invalid("GUARD_UPGRADE_SOURCE_CHANGED"));
    }
    Ok(())
}

/// The file that tells what an installation came to.
pub fn diagnostic_name(store: Uuid, request: Uuid) -> (r: Result<String>)
    ensures
        if store.bits == 0 || request.bits == 0 {
            r == invalid::<String>("GUARD_DEPLOYMENT_ID_REQUIRED")
        } else {
            r matches Ok(name) && name@ == "install-result-"@ + request.text() + ".json"@
        },
{
    ids(store, request)?;
    Ok(text::join3("install-result-", request.to_text().as_str(), ".json"))
}

/// Check the size of what an installation left behind.
pub fn diagnostic_size(length: u64) -> (r: Result<()>)
    ensures
        r == (if length <= RECORD_LIMIT {
            Ok(())
        } else {
            invalid::<()>("GUARD_INSTALL_DIAGNOSTIC_SIZE")
        }),
{
    if length > RECORD_LIMIT {
        return Err(Error::Invalid("GUARD_INSTALL_DIAGNOSTIC_SIZE"));
    }
    Ok(())
}

/// What is recorded of a copied generation, or why it is not used.
pub open spec fn copied_generation(
    source: Source,
    copied: u64,
    hash: Seq<char>,
    host_image: FileIdentity,
    sid: Seq<char>,
    store: Uuid,
    generation: Uuid,
    r: Result<Record>,
) -> bool {
    if copied != source.size {
        r == invalid::<Record>("GUARD_SOURCE_CHANGED")
    } else if hash != source.hash@ {
        r == invalid::<Record>("GUARD_COPY_MISMATCH")
    } else {
        r matches Ok(record) && made_from(record, source) && record.format@
            == "app-proxy-rust-guard-deployment"@ && record.protocol == PROTOCOL
            && record.store_id == store && record.generation == generation && record.owner_sid@
            == sid && record.host_image == host_image
    }
}

/// What is read of a recorded upgrade.
pub open spec fn upgrade_read(found: Result<(u64, Option<Upgrade>)>, r: Result<Option<Upgrade>>) -> bool {
    r == (match found {
        Err(e) => if absence(e) == Error::Invalid("GUARD_LISTENER_MISSING") && (e is Windows
            || e is Io) {
            Ok(None)
        } else {
            Err(e)
        },
        Ok((length, plan)) => if length > RECORD_LIMIT {
            invalid("GUARD_UPGRADE_RECORD_SIZE")
        } else {
            match plan {
                None => Err(Error::Malformed),
                Some(plan) => Ok(Some(plan)),
            }
        },
    })
}

} // verus!
