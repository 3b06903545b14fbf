//! Immutable core configurations and a compare-and-swap runtime journal. Journal state is evidence
//! of intent and ownership, never evidence of network health.
use vstd::prelude::*;
use vstd::string::*;
use crate::digest::{digest, sha256};
use crate::error::{Error, FILE_NOT_FOUND, Result, invalid};
use crate::ids::{Uuid, uuid_text};
use crate::model::{Endpoint, ProcessIdentity, ProcessView, ascending, loopback, loopback_text, recordable};
use crate::seqs::{first_where, first_where_is, first_where_none};
use crate::store::{Store, StoreView};
use crate::text;

verus! {

/// What is recorded of the running core.
#[derive(Debug)]
pub enum CoreState {
    Stopped,
    Down { generation: Uuid },
    Starting { generation: Uuid },
    Running { generation: Uuid, process: ProcessIdentity },
}

/// The contents of a core state.
pub enum StateView {
    Stopped,
    Down { generation: Uuid },
    Starting { generation: Uuid },
    Running { generation: Uuid, process: ProcessView },
}

impl View for CoreState {
    type V = StateView;

    open spec fn view(&self) -> StateView {
        match self {
            CoreState::Stopped => StateView::Stopped,
            CoreState::Down { generation } => StateView::Down { generation: *generation },
            CoreState::Starting { generation } => StateView::Starting { generation: *generation },
            CoreState::Running { generation, process } => StateView::Running {
                generation: *generation,
                process: process@,
            },
        }
    }
}

/// The generation that a state names.
pub open spec fn state_generation(state: StateView) -> Option<Uuid> {
    match state {
        StateView::Stopped => None,
        StateView::Down { generation } => Some(generation),
        StateView::Starting { generation } => Some(generation),
        StateView::Running { generation, .. } => Some(generation),
    }
}

impl CoreState {
    /// Whether two states record the same thing.
    pub fn same(&self, other: &CoreState) -> (r: bool)
        ensures
            r == (self@ == other@),
    {
        match (self, other) {
            (CoreState::Stopped, CoreState::Stopped) => true,
            (CoreState::Down { generation: a }, CoreState::Down { generation: b }) => *a == *b,
            (CoreState::Starting { generation: a }, CoreState::Starting { generation: b }) => *a
                == *b,
            (
                CoreState::Running { generation: a, process: p },
                CoreState::Running { generation: b, process: q },
            ) => *a == *b && p.same(q),
            _ => false,
        }
    }

    /// An equal state.
    pub fn copy(&self) -> (r: CoreState)
        ensures
            r == *self,
    {
        match self {
            CoreState::Stopped => CoreState::Stopped,
            CoreState::Down { generation } => CoreState::Down { generation: *generation },
            CoreState::Starting { generation } => CoreState::Starting { generation: *generation },
            CoreState::Running { generation, process } => CoreState::Running {
                generation: *generation,
                process: process.copy(),
            },
        }
    }

    /// The generation that the state names.
    pub fn generation(&self) -> (r: Option<Uuid>)
        ensures
            r == state_generation(self@),
    {
        match self {
            CoreState::Stopped => None,
            CoreState::Down { generation } => Some(*generation),
            CoreState::Starting { generation } => Some(*generation),
            CoreState::Running { generation, .. } => Some(*generation),
        }
    }
}

/// What is wrong with a state recorded for `owner`: a nil generation, or a process that may not be
/// recorded.
pub open spec fn state_validity(state: StateView, owner: Seq<char>) -> Result<()> {
    match state_generation(state) {
        Some(generation) if generation.bits == 0 => invalid("INVALID_CORE_GENERATION"),
        _ => match state {
            StateView::Running { process, .. } if !recordable(process, owner) => invalid(
                "INVALID_CORE_PROCESS_IDENTITY",
            ),
            _ => Ok(()),
        },
    }
}

/// Check a state that is recorded for `owner`.
pub fn validate_state(state: &CoreState, owner: &str) -> (r: Result<()>)
    ensures
        r == state_validity(state@, owner@),
{
    match state.generation() {
        Some(generation) => {
            if generation.is_nil() {
                return Err(Error::Invalid("INVALID_CORE_GENERATION"));
            }
        },
        None => {},
    }
    match state {
        CoreState::Running { process, .. } => {
            if !process.is_recordable(owner) {
                return Err(Error::Invalid("INVALID_CORE_PROCESS_IDENTITY"));
            }
        },
        _ => {},
    }
    Ok(())
}

/// A step that the runtime journal may take. A start follows a stop or an outage, a process is
/// recorded only for the generation that was being started, an outage keeps the generation, and
/// anything may be stopped.
pub open spec fn allowed(from: StateView, to: StateView) -> bool {
    match (from, to) {
        (StateView::Stopped, StateView::Starting { .. }) => true,
        (StateView::Down { .. }, StateView::Starting { .. }) => true,
        (
            StateView::Starting { generation: a },
            StateView::Running { generation: b, .. },
        ) => a == b,
        (StateView::Starting { generation: a }, StateView::Down { generation: b }) => a == b,
        (StateView::Running { generation: a, .. }, StateView::Down { generation: b }) => a == b,
        (StateView::Starting { .. }, StateView::Stopped) => true,
        (StateView::Running { .. }, StateView::Stopped) => true,
        (StateView::Down { .. }, StateView::Stopped) => true,
        _ => false,
    }
}

fn is_allowed(from: &CoreState, to: &CoreState) -> (r: bool)
    ensures
        r == allowed(from@, to@),
{
    match (from, to) {
        (CoreState::Stopped, CoreState::Starting { .. }) => true,
        (CoreState::Down { .. }, CoreState::Starting { .. }) => true,
        (
            CoreState::Starting { generation: a },
            CoreState::Running { generation: b, .. },
        ) => *a == *b,
        (CoreState::Starting { generation: a }, CoreState::Down { generation: b }) => *a == *b,
        (CoreState::Running { generation: a, .. }, CoreState::Down { generation: b }) => *a == *b,
        (CoreState::Starting { .. }, CoreState::Stopped) => true,
        (CoreState::Running { .. }, CoreState::Stopped) => true,
        (CoreState::Down { .. }, CoreState::Stopped) => true,
        _ => false,
    }
}

/// The runtime journal's record.
#[derive(Debug)]
pub struct CoreRecord {
    pub schema_version: u32,
    pub store_id: Uuid,
    pub state: CoreState,
}

/// A profile that a core configuration serves.
#[derive(Clone, Copy, Debug, PartialEq, Eq, Structural)]
pub struct CoreProfile {
    pub id: Uuid,
    pub endpoint: Endpoint,
}

/// What is recorded beside an immutable core configuration.
#[derive(Debug)]
pub struct Header {
    pub schema_version: u32,
    pub store_id: Uuid,
    pub generation: Uuid,
    pub digest: Vec<u8>,
    pub profiles: Vec<CoreProfile>,
}

/// An immutable core configuration: the directory it lies in, its header, the path of the
/// configuration file and that file's bytes.
#[derive(Debug)]
pub struct CoreGeneration {
    pub directory: Uuid,
    pub header: Header,
    pub path: String,
    pub config: Vec<u8>,
}

impl CoreGeneration {
    /// The generation's identifier.
    pub fn id(&self) -> (r: Uuid)
        ensures
            r == self.header.generation,
    {
        self.header.generation
    }

    /// The path of the configuration file.
    pub fn config_path(&self) -> (r: &str)
        ensures
            r@ == self.path@,
    {
        self.path.as_str()
    }

    /// The profiles that the configuration serves.
    pub fn profiles(&self) -> (r: &[CoreProfile])
        ensures
            r@ == self.header.profiles@,
    {
        self.header.profiles.as_slice()
    }

    /// The identifiers of the served profiles, in order.
    pub fn profile_ids(&self) -> (r: Vec<Uuid>)
        ensures
            r@ == profile_ids(self.header.profiles@),
    {
        let mut out: Vec<Uuid> = Vec::new();
        let mut i: usize = 0;
        while i < self.header.profiles.len()
            invariant
                i <= self.header.profiles.len(),
                out@ == profile_ids(self.header.profiles@).take(i as int),
            decreases self.header.profiles.len() - i,
        {
            out.push(self.header.profiles[i].id);
            i += 1;
            proof {
                let ids = profile_ids(self.header.profiles@);
                assert(ids.take(i as int) =~= ids.take(i - 1).push(ids[i - 1]));
            }
        }
        proof {
            let ids = profile_ids(self.header.profiles@);
            assert(ids.take(ids.len() as int) =~= ids);
        }
        out
    }
}

/// The identifiers of profiles, in order.
pub open spec fn profile_ids(profiles: Seq<CoreProfile>) -> Seq<Uuid> {
    profiles.map_values(|profile: CoreProfile| profile.id)
}

/// A profile that a core may serve: a real identifier and a loopback listener.
pub open spec fn servable(profile: CoreProfile) -> bool {
    profile.id.bits != 0 && loopback(profile.endpoint.host) && profile.endpoint.port != 0
}

/// A header that belongs to `generation` of the store: at least one profile, each servable, in
/// strictly ascending order.
pub open spec fn header_valid(header: Header, store_id: Uuid, generation: Uuid) -> bool {
    header.schema_version == 1 && header.store_id == store_id && header.generation == generation
        && header.profiles@.len() > 0 && (forall|i: int|
        0 <= i < header.profiles@.len() ==> servable(#[trigger] header.profiles@[i])) && ascending(
        profile_ids(header.profiles@),
    )
}

fn check_header(header: &Header, store_id: Uuid, generation: Uuid) -> (r: bool)
    ensures
        r == header_valid(*header, store_id, generation),
{
    if header.schema_version != 1 || header.store_id != store_id || header.generation != generation
        || header.profiles.len() == 0 {
        return false;
    }
    let mut i: usize = 0;
    let ghost ids = profile_ids(header.profiles@);
    while i < header.profiles.len()
        invariant
            i <= header.profiles.len(),
            ids == profile_ids(header.profiles@),
            forall|k: int| 0 <= k < i ==> servable(#[trigger] header.profiles@[k]),
            ascending(ids.take(i as int)),
        decreases header.profiles.len() - i,
    {
        let profile = header.profiles[i];
        if profile.id.is_nil() || !profile.endpoint.host.is_loopback() || profile.endpoint.port
            == 0 {
            proof {
                assert(!servable(header.profiles@[i as int]));
            }
            return false;
        }
        if i > 0 && header.profiles[i - 1].id.bits >= profile.id.bits {
            proof {
                assert(ids[i - 1].bits >= ids[i as int].bits);
            }
            return false;
        }
        proof {
            let longer = ids.take(i + 1);
            assert forall|a: int, b: int| 0 <= a < b < longer.len() implies (
            #[trigger] longer[a]).bits < (#[trigger] longer[b]).bits by {
                if b < i {
                    assert(ids.take(i as int)[a].bits < ids.take(i as int)[b].bits);
                } else if a < i - 1 {
                    assert(ids.take(i as int)[a].bits < ids.take(i as int)[i - 1].bits);
                }
            }
        }
        i += 1;
    }
    proof {
        assert(ids.take(ids.len() as int) =~= ids);
    }
    true
}

/// What one element of a list in a configuration document says under three text keys and one
/// number key. A key that is absent, or whose value is of another kind, gives `None`.
#[derive(Debug)]
pub struct Row {
    pub first: Option<String>,
    pub second: Option<String>,
    pub third: Option<String>,
    pub number: Option<u64>,
}

/// The contents of a row.
pub type RowView = (Option<Seq<char>>, Option<Seq<char>>, Option<Seq<char>>, Option<u64>);

impl View for Row {
    type V = RowView;

    open spec fn view(&self) -> RowView {
        (
            text::option_view(self.first),
            text::option_view(self.second),
            text::option_view(self.third),
            self.number,
        )
    }
}

/// The rows of the list under `list` in a JSON document: `None` when the bytes are not JSON,
/// `Some(None)` when there is no such list.
pub uninterp spec fn json_rows(
    bytes: Seq<u8>,
    list: Seq<char>,
    first: Seq<char>,
    second: Seq<char>,
    third: Seq<char>,
    number: Seq<char>,
) -> Option<Option<Seq<RowView>>>;

/// The contents of rows that were read.
pub open spec fn rows_view(rows: Option<Option<Vec<Row>>>) -> Option<Option<Seq<RowView>>> {
    match rows {
        None => None,
        Some(None) => Some(None),
        Some(Some(list)) => Some(Some(list@.map_values(|row: Row| row@))),
    }
}

/// `serde_json::from_slice` into a `serde_json::Value`, then `get`, `as_array`, `as_str` and
/// `as_u64` under the given keys: what the document holds there, which depends on the bytes and
/// the keys alone.
#[verifier::external_body]
fn read_rows(
    bytes: &[u8],
    list: &str,
    first: &str,
    second: &str,
    third: &str,
    number: &str,
) -> (r: Option<Option<Vec<Row>>>)
    ensures
        rows_view(r) == json_rows(bytes@, list@, first@, second@, third@, number@),
{
    let value: serde_json::Value = serde_json::from_slice(bytes).ok()?;
    let text = |v: &serde_json::Value, k: &str| v.get(k).and_then(|x| x.as_str()).map(str::to_owned);
    Some(value.get(list).and_then(|v| v.as_array()).map(|rows| {
        rows.iter().map(|v| Row {
            first: text(v, first),
            second: text(v, second),
            third: text(v, third),
            number: v.get(number).and_then(|x| x.as_u64()),
        }).collect()
    }))
}

/// A row that describes the plain HTTP listener of `profile`.
pub open spec fn listener_row(row: RowView, profile: CoreProfile) -> bool {
    row.0 == Some("in-"@ + uuid_text(profile.id.bits)) && row.1 == Some("http"@) && row.2 == Some(
        loopback_text(profile.endpoint.host),
    ) && row.3 == Some(profile.endpoint.port as u64)
}

/// Exactly one row describes the listener of `profile`.
pub open spec fn one_row(rows: Seq<RowView>, profile: CoreProfile) -> bool {
    exists|i: int|
        0 <= i < rows.len() && #[trigger] listener_row(rows[i], profile) && forall|j: int|
            0 <= j < rows.len() && #[trigger] listener_row(rows[j], profile) ==> j == i
}

/// The listeners of a configuration are those of the profiles, one each and no others.
pub open spec fn mapping_matches(profiles: Seq<CoreProfile>, rows: Seq<RowView>) -> bool {
    rows.len() == profiles.len() && forall|i: int|
        0 <= i < profiles.len() ==> one_row(rows, #[trigger] profiles[i])
}

fn is_listener_row(row: &Row, tag: &str, host: &str, profile: &CoreProfile) -> (r: bool)
    requires
        tag@ == "in-"@ + uuid_text(profile.id.bits),
        host@ == loopback_text(profile.endpoint.host),
    ensures
        r == listener_row(row@, *profile),
{
    let first = match &row.first {
        Some(value) => text::same(value.as_str(), tag),
        None => false,
    };
    let second = match &row.second {
        Some(value) => text::same(value.as_str(), "http"),
        None => false,
    };
    let third = match &row.third {
        Some(value) => text::same(value.as_str(), host),
        None => false,
    };
    let number = match row.number {
        Some(value) => value == profile.endpoint.port as u64,
        None => false,
    };
    first && second && third && number
}

/// Whether the listeners of a configuration are those of the profiles, one each and no others.
pub fn check_mapping(profiles: &[CoreProfile], rows: &[Row]) -> (r: bool)
    requires
        forall|i: int| 0 <= i < profiles@.len() ==> servable(#[trigger] profiles@[i]),
    ensures
        r == mapping_matches(profiles@, rows@.map_values(|row: Row| row@)),
{
    let ghost views = rows@.map_values(|row: Row| row@);
    if rows.len() != profiles.len() {
        return false;
    }
    let mut i: usize = 0;
    while i < profiles.len()
        invariant
            i <= profiles.len(),
            rows.len() == profiles.len(),
            views == rows@.map_values(|row: Row| row@),
            forall|k: int| 0 <= k < profiles@.len() ==> servable(#[trigger] profiles@[k]),
            forall|k: int| 0 <= k < i ==> one_row(views, #[trigger] profiles@[k]),
        decreases profiles.len() - i,
    {
        let profile = profiles[i];
        proof {
            assert(servable(profiles@[i as int]));
        }
        let tag = text::join("in-", profile.id.to_text().as_str());
        let host = profile.endpoint.host.loopback_name();
        let mut found: Option<usize> = None;
        let mut j: usize = 0;
        while j < rows.len()
            invariant
                j <= rows.len(),
                i < profiles.len(),
                profile == profiles@[i as int],
                views == rows@.map_values(|row: Row| row@),
                tag@ == "in-"@ + uuid_text(profile.id.bits),
                host@ == loopback_text(profile.endpoint.host),
                match found {
                    Some(at) => at < j && listener_row(views[at as int], profile) && forall|k: int|
                        0 <= k < j && #[trigger] listener_row(views[k], profile) ==> k == at,
                    None => forall|k: int|
                        0 <= k < j ==> !(#[trigger] listener_row(views[k], profile)),
                },
            decreases rows.len() - j,
        {
            if is_listener_row(&rows[j], tag.as_str(), host.as_str(), &profile) {
                proof {
                    assert(listener_row(views[j as int], profile));
                }
                if found.is_some() {
                    proof {
                        assert(!one_row(views, profiles@[i as int]));
                    }
                    return false;
                }
                found = Some(j);
            }
            j += 1;
        }
        if found.is_none() {
            proof {
                assert(!one_row(views, profiles@[i as int]));
            }
            return false;
        }
        i += 1;
    }
    true
}

/// Generations that lie in this directory.
pub open spec fn in_directory(id: Uuid) -> spec_fn(CoreGeneration) -> bool {
    |generation: CoreGeneration| generation.directory == id
}

/// Whether an opened generation is intact: a fitting header, a configuration of bounded size whose
/// digest is the recorded one, and listeners that are those of the recorded profiles.
pub open spec fn generation_validity(
    generation: CoreGeneration,
    store_id: Uuid,
    id: Uuid,
    limit: usize,
) -> Result<()> {
    if !header_valid(generation.header, store_id, id) {
        invalid("CORE_GENERATION_HEADER_MISMATCH")
    } else if generation.config@.len() > limit || sha256(generation.config@)
        != generation.header.digest@ {
        invalid("CORE_CONFIG_DIGEST_MISMATCH")
    } else {
        match json_rows(
            generation.config@,
            "inbounds"@,
            "tag"@,
            "type"@,
            "listen"@,
            "listen_port"@,
        ) {
            None => Err(Error::Malformed),
            Some(None) => invalid("CORE_PROFILE_MAPPING_MISMATCH"),
            Some(Some(rows)) => if mapping_matches(generation.header.profiles@, rows) {
                Ok(())
            } else {
                invalid("CORE_PROFILE_MAPPING_MISMATCH")
            },
        }
    }
}

/// The generation that opens under `id`, or why none does.
pub open spec fn opened(store: StoreView, id: Uuid) -> Result<CoreGeneration> {
    if id.bits == 0 {
        invalid("INVALID_CORE_GENERATION")
    } else {
        match first_where(store.generations, in_directory(id)) {
            None => Err(Error::Io { code: FILE_NOT_FOUND }),
            Some(at) => match generation_validity(
                store.generations[at],
                store.manifest.store_id,
                id,
                store.config_limit,
            ) {
                Ok(_) => Ok(store.generations[at]),
                Err(e) => Err(e),
            },
        }
    }
}

/// A core configuration compiled from a snapshot, or the code with which compiling refused it.
#[derive(Debug)]
pub enum Compiled {
    Config(Vec<u8>),
    Refused(&'static str),
}

/// Whether a compiled configuration is the one that a generation holds.
pub open spec fn compiled_matches(compiled: Compiled, generation: CoreGeneration) -> Result<bool> {
    match compiled {
        Compiled::Config(bytes) => Ok(sha256(bytes@) == generation.header.digest@),
        Compiled::Refused(code) => invalid(code),
    }
}

/// Whether a compiled configuration is byte for byte the one that a generation was made from.
pub fn core_generation_matches(compiled: &Compiled, generation: &CoreGeneration) -> (r: Result<
    bool,
>)
    ensures
        r == compiled_matches(*compiled, *generation),
{
    match compiled {
        Compiled::Config(bytes) => {
            let found = digest(bytes.as_slice());
            Ok(text::same_bytes(found.as_slice(), generation.header.digest.as_slice()))
        },
        Compiled::Refused(code) => Err(Error::Invalid(*code)),
    }
}

/// The recorded state of the core. A store without a record has a stopped core.
pub open spec fn recorded_state(store: StoreView) -> Result<StateView> {
    match store.core {
        None => Ok(StateView::Stopped),
        Some(record) => if record.schema_version != 1 || record.store_id
            != store.manifest.store_id {
            invalid("CORE_STATE_OWNER_MISMATCH")
        } else {
            match state_validity(record.state@, store.manifest.owner_sid@) {
                Ok(_) => Ok(record.state@),
                Err(e) => Err(e),
            }
        },
    }
}

/// What a transition from `expected` to `next` comes to. `update` says that the transition is a
/// step of an update, which may also move an outage back to the generation it restores.
pub open spec fn transition_outcome(
    store: StoreView,
    expected: StateView,
    next: StateView,
    compiled: Compiled,
    update: bool,
) -> Result<()> {
    match recorded_state(store) {
        Err(e) => Err(e),
        Ok(state) => if state != expected {
            invalid("CORE_STATE_CHANGED")
        } else {
            match state_validity(next, store.manifest.owner_sid@) {
                Err(e) => Err(e),
                Ok(_) => if !(allowed(expected, next) || (update && expected is Down && next
                    is Down)) {
                    invalid("INVALID_CORE_STATE_TRANSITION")
                } else {
                    match state_generation(next) {
                        None => Ok(()),
                        Some(id) => match opened(store, id) {
                            Err(e) => Err(e),
                            Ok(generation) => if next is Starting {
                                match compiled_matches(compiled, generation) {
                                    Err(e) => Err(e),
                                    Ok(current) => if current {
                                        Ok(())
                                    } else {
                                        invalid("CORE_CONFIG_CHANGED")
                                    },
                                }
                            } else {
                                Ok(())
                            },
                        },
                    }
                },
            }
        },
    }
}

impl Store {
    /// The generation that lies under `generation`, once it is found intact.
    pub fn open_core_generation(&self, generation: Uuid) -> (r: Result<&CoreGeneration>)
        ensures
            match r {
                Ok(found) => opened(self@, generation) == Ok::<CoreGeneration, Error>(*found),
                Err(e) => opened(self@, generation) == Err::<CoreGeneration, Error>(e),
            },
    {
        if generation.is_nil() {
            return Err(Error::Invalid("INVALID_CORE_GENERATION"));
        }
        let mut at: usize = 0;
        while at < self.generations.len() && self.generations[at].directory != generation
            invariant
                at <= self.generations.len(),
                forall|k: int|
                    0 <= k < at ==> !in_directory(generation)(#[trigger] self.generations@[k]),
            decreases self.generations.len() - at,
        {
            at += 1;
        }
        if at == self.generations.len() {
            proof {
                first_where_none(self.generations@, in_directory(generation));
            }
            return Err(Error::Io { code: FILE_NOT_FOUND });
        }
        proof {
            first_where_is(self.generations@, in_directory(generation), at as int);
        }
        let found = &self.generations[at];
        if !check_header(&found.header, self.manifest.store_id, generation) {
            return Err(Error::Invalid("CORE_GENERATION_HEADER_MISMATCH"));
        }
        if found.config.len() > self.config_limit || !text::same_bytes(
            digest(found.config.as_slice()).as_slice(),
            found.header.digest.as_slice(),
        ) {
            return Err(Error::Invalid("CORE_CONFIG_DIGEST_MISMATCH"));
        }
        match read_rows(
            found.config.as_slice(),
            "inbounds",
            "tag",
            "type",
            "listen",
            "listen_port",
        ) {
            None => Err(Error::Malformed),
            Some(None) => Err(Error::Invalid("CORE_PROFILE_MAPPING_MISMATCH")),
            Some(Some(rows)) => {
                if check_mapping(found.header.profiles.as_slice(), rows.as_slice()) {
                    Ok(found)
                } else {
                    Err(Error::Invalid("CORE_PROFILE_MAPPING_MISMATCH"))
                }
            },
        }
    }

    /// Whether a generation still is what the current configuration compiles to. Configuration
    /// bytes are compared, so that names and revisions do not force a running core to restart.
    pub fn core_generation_is_current(
        &self,
        generation: &CoreGeneration,
        compiled: &Compiled,
    ) -> (r: Result<bool>)
        ensures
            r == (if generation.header.store_id != self@.manifest.store_id {
                invalid::<bool>("CORE_GENERATION_STORE_MISMATCH")
            } else {
                compiled_matches(*compiled, *generation)
            }),
    {
        if generation.header.store_id != self.manifest.store_id {
            return Err(Error::Invalid("CORE_GENERATION_STORE_MISMATCH"));
        }
        core_generation_matches(compiled, generation)
    }

    /// The recorded state of the core.
    pub fn core_state(&self) -> (r: Result<CoreState>)
        ensures
            match r {
                Ok(state) => recorded_state(self@) == Ok::<StateView, Error>(state@),
                Err(e) => recorded_state(self@) == Err::<StateView, Error>(e),
            },
    {
        match &self.core {
            None => Ok(CoreState::Stopped),
            Some(record) => {
                if record.schema_version != 1 || record.store_id != self.manifest.store_id {
                    return Err(Error::Invalid("CORE_STATE_OWNER_MISMATCH"));
                }
                validate_state(&record.state, self.manifest.owner_sid.as_str())?;
                Ok(record.state.copy())
            },
        }
    }

    /// Replace the recorded state by `next` if it still is `expected`.
    pub(crate) fn transition_core_state_inner(
        &mut self,
        expected: &CoreState,
        next: CoreState,
        compiled: &Compiled,
        update: bool,
    ) -> (r: Result<()>)
        ensures
            r == transition_outcome(old(self)@, expected@, next@, *compiled, update),
            final(self)@ == (match r {
                Ok(_) => StoreView {
                    core: Some(
                        CoreRecord {
                            schema_version: 1,
                            store_id: old(self)@.manifest.store_id,
                            state: next,
                        },
                    ),
                    ..old(self)@
                },
                Err(_) => old(self)@,
            }),
    {
        let state = self.core_state()?;
        if !state.same(expected) {
            return Err(Error::Invalid("CORE_STATE_CHANGED"));
        }
        validate_state(&next, self.manifest.owner_sid.as_str())?;
        let outages = matches!(expected, CoreState::Down { .. }) && matches!(
            next,
            CoreState::Down { .. }
        );
        if !(is_allowed(expected, &next) || (update && outages)) {
            return Err(Error::Invalid("INVALID_CORE_STATE_TRANSITION"));
        }
        match next.generation() {
            None => {},
            Some(id) => {
                let generation = self.open_core_generation(id)?;
                if matches!(next, CoreState::Starting { .. }) {
                    if !core_generation_matches(compiled, generation)? {
                        return Err(Error::Invalid("CORE_CONFIG_CHANGED"));
                    }
                }
            },
        }
        self.core = Some(
            CoreRecord { schema_version: 1, store_id: self.manifest.store_id, state: next },
        );
        Ok(())
    }
}

/// A start whose result is not known is never followed by another start, in an update or outside one.
pub proof fn unknown_starts_are_not_repeated(
    store: StoreView,
    generation: Uuid,
    next: Uuid,
    compiled: Compiled,
    update: bool,
)
    requires
        recorded_state(store) == Ok::<StateView, Error>(StateView::Starting { generation }),
    ensures
        forall|expected: StateView|
            (#[trigger] transition_outcome(
                store,
                expected,
                StateView::Starting { generation: next },
                compiled,
                update,
            )) is Err,
{
}

} // verus!
