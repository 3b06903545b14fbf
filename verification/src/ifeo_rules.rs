//! Image registrations: which executable is started through which host.
use vstd::prelude::*;
use vstd::string::*;
use crate::error::{Error, Result, invalid};
use crate::ids::{Uuid, uuid_text};
use crate::model::{FileIdentity, Instance, InstanceData, Manifest, NetworkBinding};
use crate::path;
use crate::path::{Anchor, Prefix, last_component, pieces, piece_views};
use crate::text;

verus! {

/// The registration of an executable. `target_key` and `host_key` are the DOS forms of the two paths as
/// names are compared, that is with the case of letters folded.
#[derive(Clone, Debug)]
pub struct Registration {
    pub format: String,
    pub id: Uuid,
    pub store_id: Uuid,
    pub owner_sid: String,
    pub application_id: Uuid,
    pub instance_id: Uuid,
    pub deployment_generation: Uuid,
    pub target: String,
    pub target_key: String,
    pub target_image: FileIdentity,
    pub package_full_name: Option<String>,
    pub host: String,
    pub host_key: String,
    pub host_image: FileIdentity,
}

/// The contents of a registration.
pub struct RegistrationView {
    pub format: Seq<char>,
    pub id: Uuid,
    pub store_id: Uuid,
    pub owner_sid: Seq<char>,
    pub application_id: Uuid,
    pub instance_id: Uuid,
    pub deployment_generation: Uuid,
    pub target: Seq<char>,
    pub target_key: Seq<char>,
    pub target_image: FileIdentity,
    pub package_full_name: Option<Seq<char>>,
    pub host: Seq<char>,
    pub host_key: Seq<char>,
    pub host_image: FileIdentity,
}

impl View for Registration {
    type V = RegistrationView;

    open spec fn view(&self) -> RegistrationView {
        RegistrationView {
            format: self.format@,
            id: self.id,
            store_id: self.store_id,
            owner_sid: self.owner_sid@,
            application_id: self.application_id,
            instance_id: self.instance_id,
            deployment_generation: self.deployment_generation,
            target: self.target@,
            target_key: self.target_key@,
            target_image: self.target_image,
            package_full_name: text::option_view(self.package_full_name),
            host: self.host@,
            host_key: self.host_key@,
            host_image: self.host_image,
        }
    }
}

/// A path without the prefix that turns off path processing.
pub open spec fn plain(path: Seq<char>) -> Seq<char> {
    if r"\\?\"@.is_prefix_of(path) {
        path.skip(4)
    } else {
        path
    }
}

/// A path on a local drive without detours: a drive, its root, and no step upwards. Behind `\\?\` the piece `.`
/// counts as a detour too.
pub open spec fn local(path: Seq<char>) -> bool {
    on_drive(path) && forall|i: int|
        0 <= i < path::parts(path).len() ==> !detour(
            #[trigger] path::parts(path)[i],
            path::verbatim(path::prefix(path)),
        )
}

/// A path that begins with a drive and its root.
pub open spec fn on_drive(path: Seq<char>) -> bool {
    (path::prefix(path) == Prefix::Disk || path::prefix(path) == Prefix::VerbatimDisk)
        && path::rooted(path)
}

/// A piece that leads elsewhere.
pub open spec fn detour(piece: Seq<char>, verbatim: bool) -> bool {
    piece == seq!['.', '.'] || (verbatim && piece == seq!['.'])
}

/// A component whose end Windows would drop.
pub open spec fn loose_end(piece: Seq<char>) -> bool {
    piece.len() > 0 && (piece.last() == '.' || piece.last() == ' ')
}

/// A name with the extension `exe`.
pub open spec fn exe_name(name: Seq<char>) -> bool {
    name.len() > 4 && text::folded(name.skip(name.len() - 4)) == ".exe"@
}

/// A path whose last name has the extension `exe`.
pub open spec fn names_exe(path: Seq<char>) -> bool {
    match last_component(path) {
        Some(name) => exe_name(name),
        None => false,
    }
}

/// A path that names an executable unambiguously in a command line: no terminator, quote or percent
/// sign, no component with a loose end, and the extension `exe`.
pub open spec fn executable(path: Seq<char>) -> bool {
    let text = plain(path);
    let all = pieces(text, true);
    !text.contains('\0') && !text.contains('"') && !text.contains('%') && (forall|i: int|
        0 <= i < all.len() ==> !loose_end(#[trigger] all[i])) && names_exe(path)
}

/// A text with backslashes in place of slashes.
pub open spec fn backslashed(text: Seq<char>) -> Seq<char> {
    text.map_values(
        |c: char|
            if c == '/' {
                '\\'
            } else {
                c
            },
    )
}

/// The DOS form of the path of a local executable.
pub open spec fn dos(path: Seq<char>) -> Result<Seq<char>> {
    if !local(path) {
        invalid("IFEO_LOCAL_PATH_REQUIRED")
    } else if !executable(path) {
        invalid("IFEO_INVALID_EXECUTABLE")
    } else {
        Ok(backslashed(plain(path)))
    }
}

fn is_detour(piece: &[char], verbatim: bool) -> (r: bool)
    ensures
        r == detour(piece@, verbatim),
{
    path::is_up(piece) || (verbatim && path::is_here(piece))
}

pub(crate) fn is_exe_name(name: &[char]) -> (r: bool)
    ensures
        r == exe_name(name@),
{
    let n: usize = name.len();
    if n <= 4 {
        return false;
    }
    proof {
        reveal_strlit(".exe");
    }
    let a = text::lower(name[n - 4]);
    let b = text::lower(name[n - 3]);
    let c = text::lower(name[n - 2]);
    let d = text::lower(name[n - 1]);
    let found = a == '.' && b == 'e' && c == 'x' && d == 'e';
    proof {
        let tail = text::folded(name@.skip(name@.len() - 4));
        assert(tail.len() == 4);
        assert(tail[0] == a && tail[1] == b && tail[2] == c && tail[3] == d);
        assert((tail =~= ".exe"@) == found);
    }
    found
}

pub(crate) fn is_names_exe(path: &str) -> (r: bool)
    ensures
        r == names_exe(path@),
{
    match path::file_name(path) {
        Some(name) => is_exe_name(text::chars(name.as_str()).as_slice()),
        None => false,
    }
}

/// Whether a path begins with a drive and its root.
pub(crate) fn is_on_drive(found: Anchor) -> (r: bool)
    ensures
        r == ((found.kind == Prefix::Disk || found.kind == Prefix::VerbatimDisk) && found.rooted),
{
    matches!(found.kind, Prefix::Disk | Prefix::VerbatimDisk) && found.rooted
}

pub(crate) fn begins_verbatim(x: &[char]) -> (r: bool)
    ensures
        r == r"\\?\"@.is_prefix_of(x@),
{
    proof {
        reveal_strlit(r"\\?\");
    }
    let found = x.len() >= 4 && x[0] == '\\' && x[1] == '\\' && x[2] == '?' && x[3] == '\\';
    proof {
        if found {
            assert(r"\\?\"@ =~= x@.take(4));
        } else if r"\\?\"@.is_prefix_of(x@) {
            let p = r"\\?\"@;
            assert(p[0] == x@[0] && p[1] == x@[1] && p[2] == x@[2] && p[3] == x@[3]);
        }
    }
    found
}

/// The DOS form of the path of a local executable.
pub fn dos_path(path: &str) -> (r: Result<String>)
    ensures
        match dos(path@) {
            Ok(text) => r matches Ok(found) && found@ == text,
            Err(e) => r == Err::<String, Error>(e),
        },
{
    let x = text::chars(path);
    let verbatim = begins_verbatim(x.as_slice());
    proof {
        reveal_strlit(r"\\?\");
    }
    let start: usize = if verbatim {
        4
    } else {
        0
    };
    let mut plain_text: Vec<char> = Vec::new();
    let mut i: usize = start;
    while i < x.len()
        invariant
            start <= i <= x.len(),
            plain_text@ == x@.subrange(start as int, i as int),
        decreases x.len() - i,
    {
        plain_text.push(x[i]);
        i += 1;
        proof {
            assert(x@.subrange(start as int, i as int) =~= x@.subrange(start as int, i - 1).push(
                x@[i - 1],
            ));
        }
    }
    proof {
        assert(plain_text@ =~= plain(path@));
    }
    let found = path::anchor(x.as_slice());
    if !is_on_drive(found) {
        return Err(Error::Invalid("IFEO_LOCAL_PATH_REQUIRED"));
    }
    let parts = path::split_parts(x.as_slice(), found);
    let whole = matches!(found.kind, Prefix::VerbatimDisk);
    let ghost views = path::parts(path@);
    let mut k: usize = 0;
    while k < parts.len()
        invariant
            k <= parts.len(),
            piece_views(parts@) == views,
            views == path::parts(path@),
            whole == path::verbatim(path::prefix(path@)),
            forall|m: int| 0 <= m < k ==> !detour(#[trigger] views[m], whole),
        decreases parts.len() - k,
    {
        proof {
            assert(views[k as int] == parts@[k as int]@);
        }
        if is_detour(parts[k].as_slice(), whole) {
            proof {
                assert(detour(path::parts(path@)[k as int], whole));
                assert(!local(path@));
            }
            return Err(Error::Invalid("IFEO_LOCAL_PATH_REQUIRED"));
        }
        k += 1;
    }
    proof {
        assert(local(path@));
    }
    let mut bad = false;
    i = 0;
    while i < plain_text.len()
        invariant
            i <= plain_text.len(),
            plain_text@ == plain(path@),
            bad == exists|m: int|
                0 <= m < i && (#[trigger] plain_text@[m] == '\0' || plain_text@[m] == '"'
                    || plain_text@[m] == '%'),
        decreases plain_text.len() - i,
    {
        let c = plain_text[i];
        if c == '\0' || c == '"' || c == '%' {
            bad = true;
        }
        i += 1;
    }
    proof {
        let t = plain(path@);
        if bad {
            let m = choose|m: int|
                0 <= m < t.len() && (#[trigger] t[m] == '\0' || t[m] == '"' || t[m] == '%');
            assert(t.contains(t[m]));
        } else {
            assert forall|m: int| 0 <= m < t.len() implies t[m] != '\0' && t[m] != '"' && t[m]
                != '%' by {}
        }
        assert(bad == (t.contains('\0') || t.contains('"') || t.contains('%')));
    }
    let all = path::split(plain_text.as_slice(), true);
    let ghost all_views = pieces(plain(path@), true);
    let mut loose = false;
    k = 0;
    while k < all.len()
        invariant
            k <= all.len(),
            piece_views(all@) == all_views,
            loose == exists|m: int| 0 <= m < k && loose_end(#[trigger] all_views[m]),
        decreases all.len() - k,
    {
        let n: usize = all[k].len();
        proof {
            assert(all_views[k as int] == all@[k as int]@);
        }
        if n > 0 && (all[k][n - 1] == '.' || all[k][n - 1] == ' ') {
            proof {
                assert(loose_end(all_views[k as int]));
            }
            loose = true;
        }
        k += 1;
    }
    let exe = is_names_exe(path);
    if bad || loose || !exe {
        return Err(Error::Invalid("IFEO_INVALID_EXECUTABLE"));
    }
    let mut out = String::new();
    i = 0;
    while i < plain_text.len()
        invariant
            i <= plain_text.len(),
            out@ == backslashed(plain_text@).take(i as int),
        decreases plain_text.len() - i,
    {
        let c = plain_text[i];
        out.push(
            if c == '/' {
                '\\'
            } else {
                c
            },
        );
        i += 1;
        proof {
            let b = backslashed(plain_text@);
            assert(b.take(i as int) =~= b.take(i - 1).push(b[i - 1]));
        }
    }
    proof {
        let b = backslashed(plain_text@);
        assert(b.take(b.len() as int) =~= b);
    }
    Ok(out)
}

/// Whether a registration may be recorded.
pub open spec fn registration_validity(record: RegistrationView) -> Result<()> {
    if record.format != "app-proxy-rust-ifeo-v1"@ || record.id.bits == 0 || record.store_id.bits
        == 0 || record.application_id.bits == 0 || record.instance_id.bits == 0
        || record.deployment_generation.bits == 0 || record.owner_sid.len() == 0 {
        invalid("IFEO_INVALID_RECORD")
    } else if dos(record.target) is Err {
        Err(dos(record.target)->Err_0)
    } else if dos(record.host) is Err {
        Err(dos(record.host)->Err_0)
    } else {
        match last_component(record.host) {
            Some(name) if text::same_folded(name, "app-proxy-host.exe"@) => Ok(()),
            _ => invalid("IFEO_INVALID_HOST"),
        }
    }
}

/// The name of the key that holds a registration's filter.
pub open spec fn filter_name(id: Uuid) -> Seq<char> {
    "AppProxyRust-"@ + uuid_text(id.bits)
}

/// The command that Windows runs in place of the target.
pub open spec fn debugger_command(host: Seq<char>, id: Uuid) -> Seq<char> {
    "\""@ + host + "\" ifeo-entry --registration "@ + uuid_text(id.bits) + " --"@
}

/// A path that an entry was started with, and its DOS form as names are compared.
#[derive(Debug)]
pub struct EntryPath {
    pub path: String,
    pub key: String,
}

/// Why an entry was not started for a registration.
pub open spec fn entry_paths(record: RegistrationView, host: EntryPath, target: EntryPath) -> Result<
    (),
> {
    if dos(host.path@) is Err {
        Err(dos(host.path@)->Err_0)
    } else if dos(target.path@) is Err {
        Err(dos(target.path@)->Err_0)
    } else if host.key@ != record.host_key || target.key@ != record.target_key {
        invalid("IFEO_ENTRY_PATH_MISMATCH")
    } else {
        Ok(())
    }
}

impl Registration {
    /// Check that the registration may be recorded.
    pub fn validate(&self) -> (r: Result<()>)
        ensures
            r == registration_validity(self@),
    {
        if !text::same(self.format.as_str(), "app-proxy-rust-ifeo-v1") || self.id.is_nil()
            || self.store_id.is_nil() || self.application_id.is_nil() || self.instance_id.is_nil()
            || self.deployment_generation.is_nil() || self.owner_sid.as_str().is_empty() {
            return Err(Error::Invalid("IFEO_INVALID_RECORD"));
        }
        dos_path(self.target.as_str())?;
        dos_path(self.host.as_str())?;
        match path::file_name(self.host.as_str()) {
            Some(name) => {
                if text::eq_ignore_ascii_case(name.as_str(), "app-proxy-host.exe") {
                    return Ok(());
                }
            },
            None => {},
        }
        Err(Error::Invalid("IFEO_INVALID_HOST"))
    }

    /// The file name of the target.
    pub fn basename(&self) -> (r: Result<String>)
        ensures
            match last_component(self.target@) {
                Some(name) => r matches Ok(found) && found@ == name,
                None => r == invalid::<String>("IFEO_INVALID_TARGET"),
            },
    {
        match path::file_name(self.target.as_str()) {
            Some(name) => Ok(name),
            None => Err(Error::Invalid("IFEO_INVALID_TARGET")),
        }
    }

    /// The name of the key that holds the registration's filter.
    pub fn filter(&self) -> (r: String)
        ensures
            r@ == filter_name(self.id),
    {
        text::join("AppProxyRust-", self.id.to_text().as_str())
    }

    /// The command that Windows runs in place of the target.
    pub fn debugger(&self) -> (r: Result<String>)
        ensures
            match dos(self.host@) {
                Ok(host) => r matches Ok(command) && command@ == debugger_command(host, self.id),
                Err(e) => r == Err::<String, Error>(e),
            },
    {
        let host = dos_path(self.host.as_str())?;
        let mut command = text::join3("\"", host.as_str(), "\" ifeo-entry --registration ");
        command.append(self.id.to_text().as_str());
        command.append(" --");
        Ok(command)
    }

    /// Check that an entry was started for this registration: both paths are local executables, and
    /// as names are compared they are the registered ones.
    pub fn matches_entry_paths(&self, host: &EntryPath, target: &EntryPath) -> (r: Result<()>)
        ensures
            r == entry_paths(self@, *host, *target),
    {
        dos_path(host.path.as_str())?;
        dos_path(target.path.as_str())?;
        if !text::same(host.key.as_str(), self.host_key.as_str()) || !text::same(
            target.key.as_str(),
            self.target_key.as_str(),
        ) {
            return Err(Error::Invalid("IFEO_ENTRY_PATH_MISMATCH"));
        }
        Ok(())
    }

    /// Whether two registrations are equal in every field.
    pub fn same(&self, other: &Registration) -> (r: bool)
        ensures
            r == (self@ == other@),
    {
        self.id == other.id && self.store_id == other.store_id && self.application_id
            == other.application_id && self.instance_id == other.instance_id
            && self.deployment_generation == other.deployment_generation && self.target_image
            == other.target_image && self.host_image == other.host_image && text::same(
            self.format.as_str(),
            other.format.as_str(),
        ) && text::same(self.owner_sid.as_str(), other.owner_sid.as_str()) && text::same(
            self.target.as_str(),
            other.target.as_str(),
        ) && text::same(self.target_key.as_str(), other.target_key.as_str())
            && text::same_option(&self.package_full_name, &other.package_full_name) && text::same(
            self.host.as_str(),
            other.host.as_str(),
        ) && text::same(self.host_key.as_str(), other.host_key.as_str())
    }

    /// An equal registration.
    pub fn copy(&self) -> (r: Registration)
        ensures
            r@ == self@,
    {
        Registration {
            format: self.format.clone(),
            id: self.id,
            store_id: self.store_id,
            owner_sid: self.owner_sid.clone(),
            application_id: self.application_id,
            instance_id: self.instance_id,
            deployment_generation: self.deployment_generation,
            target: self.target.clone(),
            target_key: self.target_key.clone(),
            target_image: self.target_image,
            package_full_name: match &self.package_full_name {
                Some(name) => Some(name.clone()),
                None => None,
            },
            host: self.host.clone(),
            host_key: self.host_key.clone(),
            host_image: self.host_image,
        }
    }
}

/// A resolved executable: its path, its path as names are compared, its file, and the full name of the
/// package it belongs to.
#[derive(Debug)]
pub struct Target {
    pub path: String,
    pub key: String,
    pub image: FileIdentity,
    pub package_full_name: Option<String>,
}

/// A deployed host: the store and generation it belongs to, its path, its path as names are compared,
/// and its file.
#[derive(Debug)]
pub struct Host {
    pub store_id: Uuid,
    pub generation: Uuid,
    pub path: String,
    pub key: String,
    pub image: FileIdentity,
}

/// An instance whose original data is guarded and whose traffic goes through a profile.
pub open spec fn managed_original(instance: Instance) -> bool {
    instance.data is Original && instance.guarded && instance.network is Profile
}

/// Instances with this identifier.
pub open spec fn instance_id(id: Uuid) -> spec_fn(Instance) -> bool {
    |instance: Instance| instance.id == id
}

/// Why an instance cannot be registered.
pub open spec fn registrable(
    manifest: Manifest,
    owner: Seq<char>,
    host_store: Uuid,
    instance: Uuid,
) -> Result<Instance> {
    if manifest.fault is Some {
        invalid("IFEO_INVALID_CONFIGURATION")
    } else if manifest.store_id != host_store || manifest.owner_sid@ != owner {
        invalid("IFEO_OWNER_MISMATCH")
    } else {
        match crate::seqs::first_where(manifest.instances@, instance_id(instance)) {
            None => invalid("INSTANCE_NOT_FOUND"),
            Some(at) => {
                let found = manifest.instances@[at];
                if !managed_original(found) {
                    invalid("IFEO_MANAGED_ORIGINAL_REQUIRED")
                } else if !exists|k: int|
                    0 <= k < manifest.applications@.len() && (#[trigger] manifest.applications@[k]).id
                        == found.application_id {
                    invalid("APPLICATION_NOT_FOUND")
                } else {
                    Ok(found)
                }
            },
        }
    }
}

/// The instance that is to be registered, if it can be: its place in the configuration.
pub fn check_registrable(
    manifest: &Manifest,
    owner: &str,
    host_store: Uuid,
    instance: Uuid,
) -> (r: Result<usize>)
    ensures
        match registrable(*manifest, owner@, host_store, instance) {
            Err(e) => r == Err::<usize, Error>(e),
            Ok(found) => r matches Ok(at) && at < manifest.instances@.len()
                && manifest.instances@[at as int] == found,
        },
{
    if manifest.fault.is_some() {
        return Err(Error::Invalid("IFEO_INVALID_CONFIGURATION"));
    }
    if manifest.store_id != host_store || !text::same(manifest.owner_sid.as_str(), owner) {
        return Err(Error::Invalid("IFEO_OWNER_MISMATCH"));
    }
    let mut at: usize = 0;
    while at < manifest.instances.len() && manifest.instances[at].id != instance
        invariant
            at <= manifest.instances.len(),
            forall|k: int|
                0 <= k < at ==> !instance_id(instance)(#[trigger] manifest.instances@[k]),
        decreases manifest.instances.len() - at,
    {
        at += 1;
    }
    if at == manifest.instances.len() {
        proof {
            crate::seqs::first_where_none(manifest.instances@, instance_id(instance));
        }
        return Err(Error::Invalid("INSTANCE_NOT_FOUND"));
    }
    proof {
        crate::seqs::first_where_is(manifest.instances@, instance_id(instance), at as int);
    }
    let found = &manifest.instances[at];
    if !matches!(found.data, InstanceData::Original) || !found.guarded || !matches!(
        found.network,
        NetworkBinding::Profile { .. }
    ) {
        return Err(Error::Invalid("IFEO_MANAGED_ORIGINAL_REQUIRED"));
    }
    let mut k: usize = 0;
    while k < manifest.applications.len()
        invariant
            k <= manifest.applications.len(),
            forall|m: int|
                0 <= m < k ==> (#[trigger] manifest.applications@[m]).id != found.application_id,
            at < manifest.instances.len(),
            *found == manifest.instances@[at as int],
            managed_original(*found),
            manifest.fault is None,
            manifest.store_id == host_store,
            manifest.owner_sid@ == owner@,
            crate::seqs::first_where(manifest.instances@, instance_id(instance)) == Some(at as int),
        decreases manifest.applications.len() - k,
    {
        if manifest.applications[k].id == found.application_id {
            return Ok(at);
        }
        k += 1;
    }
    Err(Error::Invalid("APPLICATION_NOT_FOUND"))
}

/// The registration of an instance that was found registrable.
pub fn registration_for(
    manifest: &Manifest,
    instance: &Instance,
    id: Uuid,
    target: Target,
    host: Host,
) -> (r: Result<Registration>)
    ensures
        registered_for(*manifest, *instance, id, target, host, r),
{
    let record = Registration {
        format: "app-proxy-rust-ifeo-v1".to_owned(),
        id,
        store_id: manifest.store_id,
        owner_sid: manifest.owner_sid.clone(),
        application_id: instance.application_id,
        instance_id: instance.id,
        deployment_generation: host.generation,
        target: target.path,
        target_key: target.key,
        target_image: target.image,
        package_full_name: target.package_full_name,
        host: host.path,
        host_key: host.key,
        host_image: host.image,
    };
    record.validate()?;
    Ok(record)
}

/// Check that a registration belongs to the user who asks for it.
pub fn check_owner(record: &Registration, user_sid: &str) -> (r: Result<()>)
    ensures
        r == (if record.owner_sid@ == user_sid@ {
            Ok(())
        } else {
            invalid::<()>("IFEO_OWNER_MISMATCH")
        }),
{
    if !text::same(record.owner_sid.as_str(), user_sid) {
        return Err(Error::Invalid("IFEO_OWNER_MISMATCH"));
    }
    Ok(())
}

/// Why the deployed host or the target is no longer the registered file.
pub open spec fn still_registered(
    record: RegistrationView,
    host: Seq<char>,
    host_image: FileIdentity,
    target: FileIdentity,
) -> Result<()> {
    if host != record.host || host_image != record.host_image {
        invalid("IFEO_HOST_CHANGED")
    } else if target != record.target_image {
        invalid("IFEO_TARGET_CHANGED")
    } else {
        Ok(())
    }
}

/// Check that the deployed host and the target still are the registered files.
pub fn verify_registered(record: &Registration, host: &Host, target: FileIdentity) -> (r: Result<()>)
    ensures
        r == still_registered(record@, host.path@, host.image, target),
{
    if !text::same(host.path.as_str(), record.host.as_str()) || host.image != record.host_image {
        return Err(Error::Invalid("IFEO_HOST_CHANGED"));
    }
    if target != record.target_image {
        return Err(Error::Invalid("IFEO_TARGET_CHANGED"));
    }
    Ok(())
}

/// Of the instances of a sound configuration of the caller's own store, those are registered that work on their
/// application's original data, are guarded, and reach the network through a profile; the application has to be
/// recorded. Any other instance is refused, and so is every configuration that is not sound or not the caller's.
pub proof fn only_managed_originals_are_registered(
    manifest: Manifest,
    owner: Seq<char>,
    host_store: Uuid,
    instance: Uuid,
    at: int,
)
    requires
        0 <= at < manifest.instances@.len(),
        manifest.instances@[at].id == instance,
        forall|k: int| 0 <= k < at ==> (#[trigger] manifest.instances@[k]).id != instance,
    ensures
        ({
            let found = manifest.instances@[at];
            let sound = manifest.fault is None;
            let own = manifest.store_id == host_store && manifest.owner_sid@ == owner;
            let managed = (found.data matches InstanceData::Original) && found.guarded
                && !(found.network matches NetworkBinding::Direct);
            let known = exists|k: int|
                0 <= k < manifest.applications@.len() && (#[trigger] manifest.applications@[k]).id
                    == found.application_id;
            let told = registrable(manifest, owner, host_store, instance);
            &&& told is Ok <==> sound && own && managed && known
            &&& told is Ok ==> told == Ok::<Instance, Error>(found)
            &&& sound && own && !managed ==> told == invalid::<Instance>("IFEO_MANAGED_ORIGINAL_REQUIRED")
            &&& sound && own && managed && !known ==> told == invalid::<Instance>("APPLICATION_NOT_FOUND")
            &&& sound && !own ==> told == invalid::<Instance>("IFEO_OWNER_MISMATCH")
            &&& !sound ==> told == invalid::<Instance>("IFEO_INVALID_CONFIGURATION")
        }),
{
    let wanted = instance_id(instance);
    assert forall|k: int| 0 <= k < at implies !wanted(#[trigger] manifest.instances@[k]) by {}
    crate::seqs::first_where_is(manifest.instances@, wanted, at);
}

/// The registration that is made for an instance.
pub open spec fn registered_for(
    manifest: Manifest,
    instance: Instance,
    id: Uuid,
    target: Target,
    host: Host,
    r: Result<Registration>,
) -> bool {
    ({
        let record = RegistrationView {
            format: "app-proxy-rust-ifeo-v1"@,
            id,
            store_id: manifest.store_id,
            owner_sid: manifest.owner_sid@,
            application_id: instance.application_id,
            instance_id: instance.id,
            deployment_generation: host.generation,
            target: target.path@,
            target_key: target.key@,
            target_image: target.image,
            package_full_name: text::option_view(target.package_full_name),
            host: host.path@,
            host_key: host.key@,
            host_image: host.image,
        };
        match registration_validity(record) {
            Err(e) => r == Err::<Registration, Error>(e),
            Ok(_) => r matches Ok(made) && made@ == record,
        }
    })
}

} // verus!
