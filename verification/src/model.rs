//! The configuration that a store holds, as far as the rules of this library read it.
use vstd::prelude::*;
use vstd::string::*;
use crate::error::{Error, Result};
use crate::ids::Uuid;
use crate::path;
use crate::seqs::{first_where, first_where_is, first_where_none};
use crate::text;

verus! {

/// The physical identity of a file, independent of its name.
#[derive(Clone, Copy, Debug, PartialEq, Eq, Structural)]
pub struct FileIdentity {
    pub volume_serial: u32,
    pub file_index: u64,
}

/// A process, told apart from every other process that has had or will have its number.
#[derive(Debug)]
pub struct ProcessIdentity {
    pub pid: u32,
    pub creation_time: u64,
    pub user_sid: String,
    pub session_id: u32,
    pub image_path: String,
    pub image_file: FileIdentity,
}

/// The contents of a process identity.
pub struct ProcessView {
    pub pid: u32,
    pub creation_time: u64,
    pub user_sid: Seq<char>,
    pub session_id: u32,
    pub image_path: Seq<char>,
    pub image_file: FileIdentity,
}

impl View for ProcessIdentity {
    type V = ProcessView;

    open spec fn view(&self) -> ProcessView {
        ProcessView {
            pid: self.pid,
            creation_time: self.creation_time,
            user_sid: self.user_sid@,
            session_id: self.session_id,
            image_path: self.image_path@,
            image_file: self.image_file,
        }
    }
}

/// A process identity that may be recorded for `owner`: a real process number and creation time,
/// the owner's account, and an image named by an absolute path.
pub open spec fn recordable(process: ProcessView, owner: Seq<char>) -> bool {
    process.pid != 0 && process.creation_time != 0 && process.user_sid == owner && path::absolute(
        process.image_path,
    )
}

impl ProcessIdentity {
    /// Whether two identities name the same process with the same attributes.
    pub fn same(&self, other: &ProcessIdentity) -> (r: bool)
        ensures
            r == (self@ == other@),
    {
        self.pid == other.pid && self.creation_time == other.creation_time && self.session_id
            == other.session_id && self.image_file.volume_serial == other.image_file.volume_serial
            && self.image_file.file_index == other.image_file.file_index && text::same(
            self.user_sid.as_str(),
            other.user_sid.as_str(),
        ) && text::same(self.image_path.as_str(), other.image_path.as_str())
    }

    /// An equal identity.
    pub fn copy(&self) -> (r: ProcessIdentity)
        ensures
            r == *self,
    {
        ProcessIdentity {
            pid: self.pid,
            creation_time: self.creation_time,
            user_sid: self.user_sid.clone(),
            session_id: self.session_id,
            image_path: self.image_path.clone(),
            image_file: self.image_file,
        }
    }

    /// Whether this identity may be recorded for `owner`.
    pub fn is_recordable(&self, owner: &str) -> (r: bool)
        ensures
            r == recordable(self@, owner@),
    {
        self.pid != 0 && self.creation_time != 0 && text::same(self.user_sid.as_str(), owner)
            && path::is_absolute(self.image_path.as_str())
    }
}

/// An address on which a proxy listens: the four or sixteen bytes read as one number, the first
/// byte highest.
#[derive(Clone, Copy, Debug, PartialEq, Eq, Structural)]
#[allow(inconsistent_fields)]
pub enum Host {
    V4 { bits: u32 },
    V6 { bits: u128 },
}

/// An address of this machine itself: `127.0.0.0/8` or `::1`.
pub open spec fn loopback(host: Host) -> bool {
    match host {
        Host::V4 { bits } => bits / 0x1000000 == 127,
        Host::V6 { bits } => bits == 1,
    }
}

/// The text of a loopback address as a configuration writes it.
pub open spec fn loopback_text(host: Host) -> Seq<char> {
    match host {
        Host::V4 { bits } => text::number(bits as nat / 0x1000000) + seq!['.'] + text::number(
            bits as nat / 0x10000 % 256,
        ) + seq!['.'] + text::number(bits as nat / 256 % 256) + seq!['.'] + text::number(
            bits as nat % 256,
        ),
        Host::V6 { bits } => seq![':', ':', '1'],
    }
}

impl Host {
    /// Whether the address names this machine itself.
    pub fn is_loopback(&self) -> (r: bool)
        ensures
            r == loopback(*self),
    {
        match self {
            Host::V4 { bits } => *bits / 0x1000000 == 127,
            Host::V6 { bits } => *bits == 1,
        }
    }

    /// The text of a loopback address.
    pub fn loopback_name(&self) -> (r: String)
        requires
            loopback(*self),
        ensures
            r@ == loopback_text(*self),
    {
        let mut out = String::new();
        match self {
            Host::V4 { bits } => {
                text::push_number(&mut out, (*bits / 0x1000000) as u64);
                out.push('.');
                text::push_number(&mut out, (*bits / 0x10000 % 256) as u64);
                out.push('.');
                text::push_number(&mut out, (*bits / 256 % 256) as u64);
                out.push('.');
                text::push_number(&mut out, (*bits % 256) as u64);
                proof {
                    assert(out@ =~= loopback_text(*self));
                }
            },
            Host::V6 { .. } => {
                out.push(':');
                out.push(':');
                out.push('1');
                proof {
                    assert(out@ =~= loopback_text(*self));
                }
            },
        }
        out
    }
}

/// Where a proxy profile listens.
#[derive(Clone, Copy, Debug, PartialEq, Eq, Structural)]
pub struct Endpoint {
    pub host: Host,
    pub port: u16,
}

/// Where a profile's upstream servers come from. A manual profile lists its nodes; a subscription
/// adds the revision of the fetched list and the secret that holds its address. `nodes` holds the
/// nodes' encodings.
#[derive(Debug)]
pub enum ProxySource {
    Manual { nodes: Vec<Vec<u8>> },
    Subscription { revision: u64, url_secret_id: Uuid, nodes: Vec<Vec<u8>> },
}

/// A proxy profile. `encoded` is its complete encoding.
#[derive(Debug)]
pub struct Profile {
    pub id: Uuid,
    pub name: String,
    pub revision: u64,
    pub endpoint: Endpoint,
    pub selected_node_id: Uuid,
    pub source: ProxySource,
    pub encoded: Vec<u8>,
}

/// The encodings of nodes, in order.
pub open spec fn node_views(nodes: Seq<Vec<u8>>) -> Seq<Seq<u8>> {
    nodes.map_values(|node: Vec<u8>| node@)
}

/// A copy of nodes' encodings.
pub fn copy_nodes(nodes: &[Vec<u8>]) -> (r: Vec<Vec<u8>>)
    ensures
        node_views(r@) == node_views(nodes@),
{
    let mut out: Vec<Vec<u8>> = Vec::new();
    let mut i: usize = 0;
    while i < nodes.len()
        invariant
            i <= nodes.len(),
            out@.len() == i,
            forall|k: int| 0 <= k < i ==> (#[trigger] out@[k])@ == nodes@[k]@,
        decreases nodes.len() - i,
    {
        out.push(text::copy_bytes(nodes[i].as_slice()));
        i += 1;
    }
    proof {
        assert(node_views(out@) =~= node_views(nodes@));
    }
    out
}

/// Two sources with the same contents.
pub open spec fn same_source(a: ProxySource, b: ProxySource) -> bool {
    match (a, b) {
        (ProxySource::Manual { nodes: x }, ProxySource::Manual { nodes: y }) => node_views(x@)
            == node_views(y@),
        (
            ProxySource::Subscription { revision: r, url_secret_id: u, nodes: x },
            ProxySource::Subscription { revision: s, url_secret_id: v, nodes: y },
        ) => r == s && u == v && node_views(x@) == node_views(y@),
        _ => false,
    }
}

/// Two profiles with the same contents.
pub open spec fn same_profile(a: Profile, b: Profile) -> bool {
    a.id == b.id && a.name@ == b.name@ && a.revision == b.revision && a.endpoint == b.endpoint
        && a.selected_node_id == b.selected_node_id && same_source(a.source, b.source) && a.encoded@
        == b.encoded@
}

impl Profile {
    /// A profile with the same contents.
    pub fn copy(&self) -> (r: Profile)
        ensures
            same_profile(r, *self),
    {
        Profile {
            id: self.id,
            name: self.name.clone(),
            revision: self.revision,
            endpoint: self.endpoint,
            selected_node_id: self.selected_node_id,
            source: match &self.source {
                ProxySource::Manual { nodes } => ProxySource::Manual {
                    nodes: copy_nodes(nodes.as_slice()),
                },
                ProxySource::Subscription { revision, url_secret_id, nodes } => {
                    ProxySource::Subscription {
                        revision: *revision,
                        url_secret_id: *url_secret_id,
                        nodes: copy_nodes(nodes.as_slice()),
                    }
                },
            },
            encoded: text::copy_bytes(self.encoded.as_slice()),
        }
    }
}

/// How an instance reaches the network.
#[derive(Clone, Copy, Debug, PartialEq, Eq, Structural)]
pub enum NetworkBinding {
    Direct,
    Profile { profile_id: Uuid },
}

/// How an application is found.
#[derive(Clone, Debug)]
pub enum ApplicationLocator {
    Exe { path: String },
    Msix { family_name: String, app_id: String },
}

/// A registered application.
#[derive(Debug)]
pub struct Application {
    pub id: Uuid,
    pub locator: ApplicationLocator,
}

impl Application {
    /// An equal application.
    pub fn copy(&self) -> (r: Application)
        ensures
            r == *self,
    {
        Application {
            id: self.id,
            locator: match &self.locator {
                ApplicationLocator::Exe { path } => ApplicationLocator::Exe { path: path.clone() },
                ApplicationLocator::Msix { family_name, app_id } => ApplicationLocator::Msix {
                    family_name: family_name.clone(),
                    app_id: app_id.clone(),
                },
            },
        }
    }
}

/// Where the data of an isolated instance lies.
#[derive(Debug)]
pub enum StorageLocation {
    Store { relative_path: String },
    PackageLocalState { family_name: String, namespace: String, relative_path: String },
}

/// The data that an instance works on.
#[derive(Debug)]
pub enum InstanceData {
    Original,
    Isolated { location: StorageLocation },
}

/// A registered instance of an application.
#[derive(Debug)]
pub struct Instance {
    pub id: Uuid,
    pub application_id: Uuid,
    pub data: InstanceData,
    pub network: NetworkBinding,
    pub guarded: bool,
}

impl Instance {
    /// An equal instance.
    pub fn copy(&self) -> (r: Instance)
        ensures
            r == *self,
    {
        let data = match &self.data {
            InstanceData::Original => InstanceData::Original,
            InstanceData::Isolated { location } => InstanceData::Isolated {
                location: match location {
                    StorageLocation::Store { relative_path } => StorageLocation::Store {
                        relative_path: relative_path.clone(),
                    },
                    StorageLocation::PackageLocalState {
                        family_name,
                        namespace,
                        relative_path,
                    } => StorageLocation::PackageLocalState {
                        family_name: family_name.clone(),
                        namespace: namespace.clone(),
                        relative_path: relative_path.clone(),
                    },
                },
            },
        };
        Instance {
            id: self.id,
            application_id: self.application_id,
            data,
            network: self.network,
            guarded: self.guarded,
        }
    }
}

/// What the configuration records of a login task.
#[derive(Debug)]
pub struct LoginTask {
    pub name: String,
    pub target: String,
    pub args: Vec<String>,
}

/// Two login tasks with the same contents.
pub open spec fn same_task(a: LoginTask, b: LoginTask) -> bool {
    a.name@ == b.name@ && a.target@ == b.target@ && a.args@.len() == b.args@.len() && forall|i: int|
        0 <= i < a.args@.len() ==> (#[trigger] a.args@[i])@ == b.args@[i]@
}

impl LoginTask {
    /// Whether two login tasks have the same contents.
    pub fn same(&self, other: &LoginTask) -> (r: bool)
        ensures
            r == same_task(*self, *other),
    {
        if !text::same(self.name.as_str(), other.name.as_str()) || !text::same(
            self.target.as_str(),
            other.target.as_str(),
        ) || self.args.len() != other.args.len() {
            return false;
        }
        let mut i: usize = 0;
        while i < self.args.len()
            invariant
                i <= self.args.len(),
                self.args.len() == other.args.len(),
                self.name@ == other.name@,
                self.target@ == other.target@,
                forall|k: int| 0 <= k < i ==> (#[trigger] self.args@[k])@ == other.args@[k]@,
            decreases self.args.len() - i,
        {
            if !text::same(self.args[i].as_str(), other.args[i].as_str()) {
                proof {
                    assert(self.args@[i as int]@ != other.args@[i as int]@);
                }
                return false;
            }
            i += 1;
        }
        true
    }
}

/// A snapshot of the configuration.
///
/// `encoded` is the complete encoding, which digests and comparisons of snapshots use. `rest` is
/// the encoding of everything but the revision and the profiles. `fault` is the code with which
/// the configuration's own validation refuses the snapshot, when it does.
#[derive(Debug)]
pub struct Manifest {
    pub store_id: Uuid,
    pub owner_sid: String,
    pub revision: u64,
    pub profiles: Vec<Profile>,
    pub applications: Vec<Application>,
    pub instances: Vec<Instance>,
    pub login_task: Option<LoginTask>,
    pub rest: Vec<u8>,
    pub encoded: Vec<u8>,
    pub fault: Option<&'static str>,
}

/// What a valid snapshot is written as: its encoding without the revision and the profiles, and its complete
/// encoding.
#[derive(Debug)]
pub struct Encoding {
    pub rest: Vec<u8>,
    pub encoded: Vec<u8>,
}

/// A snapshot that differs from an earlier one at most in its revision, its login task and its encoding.
pub open spec fn differs_in_login(next: Manifest, current: Manifest) -> bool {
    next.store_id == current.store_id && next.owner_sid@ == current.owner_sid@
        && next.profiles@.len() == current.profiles@.len() && (forall|i: int|
        0 <= i < next.profiles@.len() ==> same_profile(
            #[trigger] next.profiles@[i],
            current.profiles@[i],
        )) && next.applications@ == current.applications@ && next.instances@ == current.instances@
}

impl Manifest {
    /// The next snapshot, with this login task. `encoding` is what it is written as.
    pub fn with_login_task(&self, login_task: Option<LoginTask>, encoding: Encoding) -> (r: Manifest)
        requires
            self.revision < u64::MAX,
        ensures
            differs_in_login(r, *self),
            r.revision == self.revision + 1,
            r.login_task == login_task,
            r.rest == encoding.rest,
            r.encoded == encoding.encoded,
            r.fault is None,
    {
        let mut profiles: Vec<Profile> = Vec::new();
        let mut i: usize = 0;
        while i < self.profiles.len()
            invariant
                i <= self.profiles.len(),
                profiles@.len() == i,
                forall|k: int|
                    0 <= k < i ==> same_profile(#[trigger] profiles@[k], self.profiles@[k]),
            decreases self.profiles.len() - i,
        {
            profiles.push(self.profiles[i].copy());
            i += 1;
        }
        let mut applications: Vec<Application> = Vec::new();
        let mut i: usize = 0;
        while i < self.applications.len()
            invariant
                i <= self.applications.len(),
                applications@ == self.applications@.take(i as int),
            decreases self.applications.len() - i,
        {
            applications.push(self.applications[i].copy());
            i += 1;
            proof {
                let all = self.applications@;
                assert(all.take(i as int) =~= all.take(i - 1).push(all[i - 1]));
            }
        }
        let mut instances: Vec<Instance> = Vec::new();
        let mut i: usize = 0;
        while i < self.instances.len()
            invariant
                i <= self.instances.len(),
                instances@ == self.instances@.take(i as int),
            decreases self.instances.len() - i,
        {
            instances.push(self.instances[i].copy());
            i += 1;
            proof {
                let all = self.instances@;
                assert(all.take(i as int) =~= all.take(i - 1).push(all[i - 1]));
            }
        }
        proof {
            assert(applications@ =~= self.applications@);
            assert(instances@ =~= self.instances@);
        }
        Manifest {
            store_id: self.store_id,
            owner_sid: self.owner_sid.clone(),
            revision: self.revision + 1,
            profiles,
            applications,
            instances,
            login_task,
            rest: encoding.rest,
            encoded: encoding.encoded,
            fault: None,
        }
    }

    /// What validation says of the snapshot.
    pub open spec fn validity(self) -> Result<()> {
        match self.fault {
            Some(code) => Err(Error::Invalid(code)),
            None => Ok(()),
        }
    }

    /// What validation says of the snapshot.
    pub fn validate(&self) -> (r: Result<()>)
        ensures
            r == self.validity(),
    {
        match self.fault {
            Some(code) => Err(Error::Invalid(code)),
            None => Ok(()),
        }
    }

    /// Whether two snapshots are the same configuration.
    pub fn same(&self, other: &Manifest) -> (r: bool)
        ensures
            r == (self.encoded@ == other.encoded@),
    {
        text::same_bytes(self.encoded.as_slice(), other.encoded.as_slice())
    }
}

/// The profiles with this identifier.
pub open spec fn profile_id(id: Uuid) -> spec_fn(Profile) -> bool {
    |profile: Profile| profile.id == id
}

/// The place of the first profile with this identifier.
pub open spec fn first_profile(profiles: Seq<Profile>, id: Uuid) -> Option<int> {
    first_where(profiles, profile_id(id))
}

/// The place of the first profile with this identifier.
pub fn find_profile(profiles: &[Profile], id: Uuid) -> (r: Option<usize>)
    ensures
        match (r, first_profile(profiles@, id)) {
            (Some(at), Some(place)) => at == place && at < profiles.len(),
            (None, None) => true,
            _ => false,
        },
{
    let mut i: usize = 0;
    while i < profiles.len()
        invariant
            i <= profiles.len(),
            forall|k: int| 0 <= k < i ==> !profile_id(id)(#[trigger] profiles@[k]),
        decreases profiles.len() - i,
    {
        if profiles[i].id == id {
            proof {
                first_where_is(profiles@, profile_id(id), i as int);
            }
            return Some(i);
        }
        i += 1;
    }
    proof {
        first_where_none(profiles@, profile_id(id));
    }
    None
}

/// Identifiers in strictly ascending order.
pub open spec fn ascending(ids: Seq<Uuid>) -> bool {
    forall|i: int, j: int| 0 <= i < j < ids.len() ==> (#[trigger] ids[i]).bits < (
    #[trigger] ids[j]).bits
}

/// Put an identifier in its place among strictly ascending ones; one that is there already is
/// not put in again.
pub fn insert_sorted(ids: &mut Vec<Uuid>, id: Uuid)
    requires
        ascending(old(ids)@),
    ensures
        ascending(final(ids)@),
        final(ids)@.to_set() == old(ids)@.to_set().insert(id),
        final(ids)@.len() == old(ids)@.len() + (if old(ids)@.contains(id) { 0int } else { 1int }),
{
    let ghost before = ids@;
    let mut at: usize = 0;
    while at < ids.len() && ids[at].bits < id.bits
        invariant
            at <= ids.len(),
            ids@ == before,
            forall|k: int| 0 <= k < at ==> (#[trigger] ids@[k]).bits < id.bits,
        decreases ids.len() - at,
    {
        at += 1;
    }
    if at < ids.len() && ids[at].bits == id.bits {
        proof {
            assert(ids@[at as int] == id);
            assert(before.contains(id));
            assert(before.to_set().insert(id) =~= before.to_set());
        }
        return;
    }
    ids.insert(at, id);
    proof {
        assert(ids@ =~= before.take(at as int).push(id) + before.skip(at as int));
        assert(!before.contains(id)) by {
            if before.contains(id) {
                let k = choose|k: int| 0 <= k < before.len() && before[k] == id;
                if k < at {
                    assert(before[k].bits < id.bits);
                } else if k > at {
                    assert(before[at as int].bits < before[k].bits);
                }
            }
        }
        assert forall|x: Uuid| ids@.contains(x) <==> (before.contains(x) || x == id) by {
            if ids@.contains(x) {
                let k = choose|k: int| 0 <= k < ids@.len() && ids@[k] == x;
                if k < at {
                    assert(before[k] == x);
                } else if k > at {
                    assert(before[k - 1] == x);
                }
            }
            if before.contains(x) {
                let k = choose|k: int| 0 <= k < before.len() && before[k] == x;
                if k < at {
                    assert(ids@[k] == x);
                } else {
                    assert(ids@[k + 1] == x);
                }
            }
            if x == id {
                assert(ids@[at as int] == x);
            }
        }
        assert(ids@.to_set() =~= before.to_set().insert(id));
        assert forall|i: int, j: int| 0 <= i < j < ids@.len() implies (#[trigger] ids@[i]).bits < (
        #[trigger] ids@[j]).bits by {
            if j < at {
                assert(before[i].bits < before[j].bits);
            } else if j == at {
                assert(before[i].bits < id.bits);
            } else if i < at {
                assert(before[i].bits < before[j - 1].bits);
            } else if i == at {
                assert(before[at as int].bits >= id.bits);
                if j - 1 > at {
                    assert(before[at as int].bits < before[j - 1].bits);
                }
            } else {
                assert(before[i - 1].bits < before[j - 1].bits);
            }
        }
    }
}

/// The identifiers of `ids` in ascending order, each once.
pub fn sorted(ids: &[Uuid]) -> (r: Vec<Uuid>)
    ensures
        ascending(r@),
        r@.to_set() == ids@.to_set(),
        r@.len() <= ids@.len(),
{
    let mut out: Vec<Uuid> = Vec::new();
    let mut i: usize = 0;
    proof {
        assert(out@.to_set() =~= ids@.take(0).to_set());
    }
    while i < ids.len()
        invariant
            i <= ids.len(),
            ascending(out@),
            out@.len() <= i,
            out@.to_set() == ids@.take(i as int).to_set(),
        decreases ids.len() - i,
    {
        insert_sorted(&mut out, ids[i]);
        proof {
            let a = ids@.take(i as int);
            let b = ids@.take(i + 1);
            assert(b =~= a.push(ids@[i as int]));
            assert forall|x: Uuid| b.contains(x) <==> (a.contains(x) || x == ids@[i as int]) by {
                if a.contains(x) {
                    let k = choose|k: int| 0 <= k < a.len() && a[k] == x;
                    assert(b[k] == x);
                }
                if b.contains(x) {
                    let k = choose|k: int| 0 <= k < b.len() && b[k] == x;
                    if k < i {
                        assert(a[k] == x);
                    }
                }
                if x == ids@[i as int] {
                    assert(b[i as int] == x);
                }
            }
            assert(b.to_set() =~= a.to_set().insert(ids@[i as int]));
        }
        i += 1;
    }
    proof {
        assert(ids@.take(ids@.len() as int) =~= ids@);
    }
    out
}

/// Two strictly ascending sequences of identifiers with the same members are the same sequence.
pub proof fn ascending_unique(a: Seq<Uuid>, b: Seq<Uuid>)
    requires
        ascending(a),
        ascending(b),
        a.to_set() == b.to_set(),
    ensures
        a == b,
    decreases a.len(),
{
    if a.len() == 0 {
        if b.len() > 0 {
            assert(b.to_set().contains(b[0]));
            assert(a.contains(b[0]));
        }
        assert(a =~= b);
    } else {
        assert(a.to_set().contains(a.last()));
        assert(b.contains(a.last()));
        assert(b.to_set().contains(b.last()));
        assert(a.contains(b.last()));
        let i = choose|i: int| 0 <= i < b.len() && b[i] == a.last();
        let j = choose|j: int| 0 <= j < a.len() && a[j] == b.last();
        if i < b.len() - 1 {
            assert(b[i].bits < b[b.len() - 1].bits);
            if j < a.len() - 1 {
                assert(a[j].bits < a[a.len() - 1].bits);
            }
        }
        assert(a.last() == b.last());
        let p = a.drop_last();
        let q = b.drop_last();
        assert forall|x: Uuid| p.contains(x) <==> q.contains(x) by {
            if p.contains(x) {
                let k = choose|k: int| 0 <= k < p.len() && p[k] == x;
                assert(a[k] == x);
                assert(a[k].bits < a[a.len() - 1].bits);
                assert(a.to_set().contains(x));
                assert(b.contains(x));
                let m = choose|m: int| 0 <= m < b.len() && b[m] == x;
                assert(q[m] == x);
            }
            if q.contains(x) {
                let k = choose|k: int| 0 <= k < q.len() && q[k] == x;
                assert(b[k] == x);
                assert(b[k].bits < b[b.len() - 1].bits);
                assert(b.to_set().contains(x));
                assert(a.contains(x));
                let m = choose|m: int| 0 <= m < a.len() && a[m] == x;
                assert(p[m] == x);
            }
        }
        assert(p.to_set() =~= q.to_set());
        ascending_unique(p, q);
        assert(a =~= p.push(a.last()));
        assert(b =~= q.push(b.last()));
    }
}

/// Whether two sequences of identifiers are equal.
pub fn same_ids(a: &[Uuid], b: &[Uuid]) -> (r: bool)
    ensures
        r == (a@ == b@),
{
    if a.len() != b.len() {
        return false;
    }
    let mut i: usize = 0;
    while i < a.len()
        invariant
            i <= a.len(),
            a.len() == b.len(),
            forall|k: int| 0 <= k < i ==> a@[k] == b@[k],
        decreases a.len() - i,
    {
        if a[i] != b[i] {
            return false;
        }
        i += 1;
    }
    proof {
        assert(a@ =~= b@);
    }
    true
}

/// Whether an identifier is among `ids`.
pub fn contains_id(ids: &[Uuid], id: Uuid) -> (r: bool)
    ensures
        r == ids@.contains(id),
{
    let mut i: usize = 0;
    while i < ids.len()
        invariant
            i <= ids.len(),
            forall|k: int| 0 <= k < i ==> ids@[k] != id,
        decreases ids.len() - i,
    {
        if ids[i] == id {
            return true;
        }
        i += 1;
    }
    false
}

/// A copy of a sequence of identifiers.
pub fn copy_ids(ids: &[Uuid]) -> (r: Vec<Uuid>)
    ensures
        r@ == ids@,
{
    let mut out: Vec<Uuid> = Vec::new();
    let mut i: usize = 0;
    while i < ids.len()
        invariant
            i <= ids.len(),
            out@ == ids@.take(i as int),
        decreases ids.len() - i,
    {
        out.push(ids[i]);
        i += 1;
        proof {
            assert(ids@.take(i as int) =~= ids@.take(i - 1).push(ids@[i - 1]));
        }
    }
    proof {
        assert(ids@.take(ids@.len() as int) =~= ids@);
    }
    out
}

} // verus!
