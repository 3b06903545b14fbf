//! Starting a core so that an interrupted start can be told from one that never happened.
use vstd::prelude::*;
use vstd::string::*;
use crate::core_plan::{settled_phase, settles};
use crate::core_requests::{CoreAction, CoreOutcome, CoreRequest, CoreRequestPhase, OutcomeView, RequestView, action_sound, is_unresolved, normal_form, outcome_valid, request_validity, unresolved, validate_outcome, validate_request};
use crate::core_state::{CoreState, StateView, opened, recorded_state};
use crate::digest::{digest, sha256};
use crate::error::{Error, FILE_NOT_FOUND, Result, invalid};
use crate::ids::{Uuid, uuid_text};
use crate::login::{quote_windows_word, quoted};
use crate::model::{FileIdentity, ProcessIdentity, ProcessView};
use crate::path;
use crate::store::{Store, StoreView};
use crate::text;

verus! {

/// The longest command line, in UTF-16 units with the terminator.
pub const COMMAND_LIMIT: usize = 32767;

/// The request on whose behalf a core is started. `encoded` is the encoding of its action.
#[derive(Debug)]
pub struct WitnessRequest {
    pub id: Uuid,
    pub action: CoreAction,
    pub encoded: Vec<u8>,
}

/// What is recorded before a core is started: who starts it, what is started, and the unique name
/// under which the start can be looked up afterwards.
#[derive(Debug)]
pub struct Witness {
    pub version: u32,
    pub store_id: Uuid,
    pub generation: Uuid,
    pub nonce: Uuid,
    pub creator: ProcessIdentity,
    pub executable: String,
    pub image: FileIdentity,
    pub request: Option<WitnessRequest>,
}

/// The name of the job object that holds the core of a start.
pub open spec fn job_name(store_id: Uuid, nonce: Uuid) -> Seq<char> {
    "Local\\AppProxyRust.Core."@ + uuid_text(store_id.bits) + "."@ + uuid_text(nonce.bits)
}

/// Starts of different stores, or two starts of one store, never share a job object.
pub proof fn job_names_are_unique(store: Uuid, nonce: Uuid, other_store: Uuid, other_nonce: Uuid)
    requires
        job_name(store, nonce) == job_name(other_store, other_nonce),
    ensures
        store == other_store,
        nonce == other_nonce,
{
    let a = job_name(store, nonce);
    let b = job_name(other_store, other_nonce);
    let p = "Local\\AppProxyRust.Core."@;
    let n = p.len() as int;
    let d = "."@.len() as int;
    assert(a.subrange(n, n + 36) =~= uuid_text(store.bits));
    assert(b.subrange(n, n + 36) =~= uuid_text(other_store.bits));
    assert(a.subrange(n + 36 + d, n + 72 + d) =~= uuid_text(nonce.bits));
    assert(b.subrange(n + 36 + d, n + 72 + d) =~= uuid_text(other_nonce.bits));
    crate::ids::uuid_text_injective(store.bits, other_store.bits);
    crate::ids::uuid_text_injective(nonce.bits, other_nonce.bits);
}

/// The security of the job object: the system and the user, nobody else.
pub fn job_security(user_sid: &str) -> (r: String)
    ensures
        r@ == "D:P(A;;GA;;;SY)(A;;GA;;;"@ + user_sid@ + ")"@,
{
    text::join3("D:P(A;;GA;;;SY)(A;;GA;;;", user_sid, ")")
}

/// A process that a start may have created: the creator's account and session, the image that was
/// to be started, and not created before the creator.
pub open spec fn process_fits(witness: Witness, process: ProcessView) -> bool {
    process.user_sid == witness.creator.user_sid@ && process.session_id
        == witness.creator.session_id && process.image_file == witness.image
        && process.creation_time >= witness.creator.creation_time
}

/// Check that a process is the one that a start created.
pub fn verify_process(witness: &Witness, process: &ProcessIdentity) -> (r: Result<()>)
    ensures
        r == (if process_fits(*witness, process@) {
            Ok(())
        } else {
            invalid::<()>("CORE_JOB_PROCESS_UNCONFIRMED")
        }),
{
    if !text::same(process.user_sid.as_str(), witness.creator.user_sid.as_str())
        || process.session_id != witness.creator.session_id || process.image_file != witness.image
        || process.creation_time < witness.creator.creation_time {
        return Err(Error::Invalid("CORE_JOB_PROCESS_UNCONFIRMED"));
    }
    Ok(())
}

impl Witness {
    /// The name of the job object that holds the core of this start.
    pub fn name(&self) -> (r: String)
        ensures
            r@ == job_name(self.store_id, self.nonce),
    {
        let mut out = text::join(
            "Local\\AppProxyRust.Core.",
            self.store_id.to_text().as_str(),
        );
        out.append(".");
        out.append(self.nonce.to_text().as_str());
        out
    }
}

/// The command line made of quoted words: the words joined by single spaces, and a terminator.
pub open spec fn command_line(words: Seq<Vec<u16>>) -> Seq<u16>
    decreases words.len(),
{
    if words.len() == 0 {
        Seq::empty()
    } else if words.len() == 1 {
        words[0]@
    } else {
        command_line(words.drop_last()) + seq![32u16] + words.last()@
    }
}

/// The words of a command line joined and terminated, if the result is not too long.
pub fn build_command(words: &[Vec<u16>]) -> (r: Result<Vec<u16>>)
    requires
        words@.len() > 0,
    ensures
        match r {
            Ok(command) => command@ == command_line(words@).push(0) && command@.len()
                <= COMMAND_LIMIT,
            Err(e) => e == Error::Invalid("CORE_COMMAND_TOO_LONG") && command_line(words@).len() + 1
                > COMMAND_LIMIT,
        },
{
    let mut command: Vec<u16> = Vec::new();
    let mut i: usize = 0;
    proof {
        assert(command@ =~= command_line(words@.take(0)));
    }
    while i < words.len()
        invariant
            i <= words.len(),
            command@ == command_line(words@.take(i as int)),
        decreases words.len() - i,
    {
        let ghost start = command@;
        let ghost longer = words@.take(i + 1);
        proof {
            assert(longer.drop_last() =~= words@.take(i as int));
            assert(longer.last() == words@[i as int]);
        }
        if i > 0 {
            command.push(32);
        }
        let ghost lead = command@;
        let mut k: usize = 0;
        while k < words[i as usize].len()
            invariant
                i < words.len(),
                k <= words@[i as int]@.len(),
                command@ == lead + words@[i as int]@.take(k as int),
            decreases words@[i as int]@.len() - k,
        {
            command.push(words[i][k]);
            k += 1;
            proof {
                assert(command@ =~= lead + words@[i as int]@.take(k as int));
            }
        }
        proof {
            assert(words@[i as int]@.take(k as int) =~= words@[i as int]@);
            if i > 0 {
                assert(command@ =~= start + seq![32u16] + words@[i as int]@);
            } else {
                assert(command@ =~= words@[i as int]@);
            }
        }
        i += 1;
    }
    proof {
        assert(words@.take(words@.len() as int) =~= words@);
    }
    if command.len() >= COMMAND_LIMIT {
        return Err(Error::Invalid("CORE_COMMAND_TOO_LONG"));
    }
    command.push(0);
    Ok(command)
}

/// The words that are handed to the core: its executable, `run`, `-c` and the configuration. The
/// directory it runs in is the one that holds the configuration.
pub fn core_words(executable: &str, config_path: &str) -> (r: Vec<String>)
    ensures
        r@.len() == 4,
        r@[0]@ == executable@,
        r@[1]@ == "run"@,
        r@[2]@ == "-c"@,
        r@[3]@ == config_path@,
{
    let mut words: Vec<String> = Vec::new();
    words.push(executable.to_owned());
    words.push("run".to_owned());
    words.push("-c".to_owned());
    words.push(config_path.to_owned());
    words
}

/// A word as it stands in a command line.
pub open spec fn command_word(word: Seq<char>) -> Seq<u16> {
    text::utf16(quoted(word))
}

/// The command line of a core: its quoted executable, `run`, `-c` and the quoted configuration.
pub open spec fn core_line(executable: Seq<char>, config_path: Seq<char>) -> Seq<u16> {
    command_word(executable) + seq![32u16] + command_word("run"@) + seq![32u16] + command_word("-c"@)
        + seq![32u16] + command_word(config_path)
}

/// The command line that a prepared start runs, terminated, if it is not too long.
pub fn core_command(witness: &Witness, config_path: &str) -> (r: Result<Vec<u16>>)
    ensures
        if core_line(witness.executable@, config_path@).len() >= COMMAND_LIMIT {
            r == invalid::<Vec<u16>>("CORE_COMMAND_TOO_LONG")
        } else {
            r matches Ok(command) && command@ == core_line(witness.executable@, config_path@).push(0)
        },
{
    let plain = core_words(witness.executable.as_str(), config_path);
    let mut words: Vec<Vec<u16>> = Vec::new();
    let mut i: usize = 0;
    while i < plain.len()
        invariant
            i <= plain@.len(),
            words@.len() == i,
            forall|k: int| 0 <= k < i ==> (#[trigger] words@[k])@ == command_word(plain@[k]@),
        decreases plain.len() - i,
    {
        words.push(text::encode_utf16(quote_windows_word(plain[i].as_str()).as_str()));
        i += 1;
    }
    proof {
        let w = words@;
        assert(w.drop_last().drop_last().drop_last() =~= seq![w[0]]);
        assert(w.drop_last().drop_last().last() == w[1]);
        assert(w.drop_last().last() == w[2]);
        reveal_with_fuel(command_line, 5);
        assert(command_line(w) =~= core_line(witness.executable@, config_path@));
    }
    build_command(words.as_slice())
}

/// What a prepared start is about to run, or why it may not run: the generation and the executable
/// must be those that were prepared, and the executable must still be the file it was.
pub fn spawn_words(
    witness: &Witness,
    generation: Uuid,
    executable: &str,
    image: FileIdentity,
    config_path: &str,
) -> (r: Result<Vec<u16>>)
    ensures
        spawn_line(*witness, generation, executable@, image, config_path@, r),
{
    if generation != witness.generation || !text::same(executable, witness.executable.as_str()) {
        return Err(Error::Invalid("CORE_START_BINDING_MISMATCH"));
    }
    if image != witness.image {
        return Err(Error::Invalid("CORE_START_IMAGE_CHANGED"));
    }
    core_command(witness, config_path)
}

/// What is seen of a job object: it is missing, it could not be opened, or it holds these counts
/// and this member. `in_job` says that the member was confirmed to belong to the job.
#[derive(Debug)]
pub enum Job {
    Missing,
    Failed { code: u32 },
    Found {
        active: u32,
        total: u32,
        assigned: u32,
        listed: u32,
        first: u64,
        in_job: bool,
        process: ProcessIdentity,
    },
}

/// The one process that a job can hold. An empty job shows that nothing runs. More than one process,
/// now or earlier, is never taken for the core.
pub open spec fn job_member(witness: Witness, job: Job) -> Result<Option<ProcessIdentity>> {
    match job {
        Job::Missing => Ok(None),
        Job::Failed { code } => Err(Error::Windows { operation: "OpenCoreJob", code }),
        Job::Found { active, total, assigned, listed, first, in_job, process } => if active == 0 {
            Ok(None)
        } else if total != 1 || active != 1 {
            invalid("CORE_JOB_MEMBERS_UNCONFIRMED")
        } else if listed == 0 {
            Ok(None)
        } else if assigned != 1 || listed != 1 || first > u32::MAX {
            invalid("CORE_JOB_MEMBERS_UNCONFIRMED")
        } else if !in_job || !process_fits(witness, process@) {
            invalid("CORE_JOB_PROCESS_UNCONFIRMED")
        } else {
            Ok(Some(process))
        },
    }
}

fn check_job(witness: &Witness, job: Job) -> (r: Result<Option<ProcessIdentity>>)
    ensures
        r == job_member(*witness, job),
{
    match job {
        Job::Missing => Ok(None),
        Job::Failed { code } => Err(Error::Windows { operation: "OpenCoreJob", code }),
        Job::Found { active, total, assigned, listed, first, in_job, process } => {
            if active == 0 {
                return Ok(None);
            }
            if total != 1 || active != 1 {
                return Err(Error::Invalid("CORE_JOB_MEMBERS_UNCONFIRMED"));
            }
            if listed == 0 {
                return Ok(None);
            }
            if assigned != 1 || listed != 1 || first > u32::MAX as u64 {
                return Err(Error::Invalid("CORE_JOB_MEMBERS_UNCONFIRMED"));
            }
            if !in_job {
                return Err(Error::Invalid("CORE_JOB_PROCESS_UNCONFIRMED"));
            }
            verify_process(witness, &process)?;
            Ok(Some(process))
        },
    }
}

/// A witness that the caller may act on: of this store and generation, with a real nonce and
/// creator, made by the caller's account in the caller's session.
pub open spec fn witness_sound(
    witness: Witness,
    store_id: Uuid,
    generation: Uuid,
    current: ProcessView,
) -> bool {
    witness.version == 1 && witness.store_id == store_id && witness.generation == generation
        && witness.nonce.bits != 0 && witness.creator.user_sid@ == current.user_sid
        && witness.creator.session_id == current.session_id && witness.creator.pid != 0
        && witness.creator.creation_time != 0 && path::absolute(witness.executable@)
}

/// What an interrupted start came to. `creator_running` says that the recorded creator, if it is
/// another process than the caller, still runs.
pub open spec fn start_evidence(
    store: StoreView,
    generation: Uuid,
    current: ProcessView,
    creator_running: bool,
    job: Job,
) -> Result<Option<ProcessIdentity>> {
    match opened(store, generation) {
        Err(e) => Err(e),
        Ok(_) => match store.start {
            None => invalid("CORE_START_WITNESS_MISSING"),
            Some(witness) => if !witness_sound(
                witness,
                store.manifest.store_id,
                generation,
                current,
            ) {
                invalid("CORE_START_WITNESS_MISMATCH")
            } else if witness.creator@ != current && creator_running {
                invalid("CORE_START_CREATOR_STILL_RUNNING")
            } else {
                job_member(witness, job)
            },
        },
    }
}

/// Nothing is ever taken for the core of an interrupted start but a single process that fits the
/// recorded witness.
pub proof fn only_the_witnessed_process_is_adopted(
    store: StoreView,
    generation: Uuid,
    current: ProcessView,
    creator_running: bool,
    job: Job,
)
    ensures
        match start_evidence(store, generation, current, creator_running, job) {
            Ok(Some(process)) => store.start is Some && process_fits(store.start->0, process@)
                && store.start->0.generation == generation && job->total == 1,
            _ => true,
        },
{
}

impl Store {
    /// Record that a core is about to be started, under a random number, which is returned.
    pub fn prepare(
        &mut self,
        generation: Uuid,
        creator: ProcessIdentity,
        executable: String,
        image: FileIdentity,
    ) -> (r: Result<Uuid>)
        ensures
            match recorded_state(old(self)@) {
                Err(e) => r == Err::<Uuid, Error>(e) && final(self)@ == old(self)@,
                Ok(StateView::Starting { .. }) => r == invalid::<Uuid>("CORE_START_RESULT_UNKNOWN")
                    && final(self)@ == old(self)@,
                Ok(_) => r matches Ok(nonce) && nonce.random() && final(self)@ == (StoreView {
                    start: Some(
                        Witness {
                            version: 1,
                            store_id: old(self)@.manifest.store_id,
                            generation,
                            nonce,
                            creator,
                            executable,
                            image,
                            request: None,
                        },
                    ),
                    ..old(self)@
                }),
            },
    {
        let nonce = Uuid::new_v4();
        self.prepare_start(generation, nonce, creator, executable, image)?;
        Ok(nonce)
    }

    /// Record that a core is about to be started. A start whose result is unknown forbids another.
    pub fn prepare_start(
        &mut self,
        generation: Uuid,
        nonce: Uuid,
        creator: ProcessIdentity,
        executable: String,
        image: FileIdentity,
    ) -> (r: Result<()>)
        ensures
            start_prepared(old(self)@, final(self)@, generation, nonce, creator, executable, image, r),
    {
        let state = self.core_state()?;
        match state {
            CoreState::Starting { .. } => {
                return Err(Error::Invalid("CORE_START_RESULT_UNKNOWN"));
            },
            _ => {},
        }
        self.start = Some(
            Witness {
                version: 1,
                store_id: self.manifest.store_id,
                generation,
                nonce,
                creator,
                executable,
                image,
                request: None,
            },
        );
        Ok(())
    }

    /// Bind a recorded start to the request that asked for it. `encoded` is the encoding of the action in its
    /// canonical form.
    pub fn bind_request(&mut self, id: Uuid, action: CoreAction, encoded: Vec<u8>) -> (r: Result<()>)
        requires
            old(self)@.start is Some,
        ensures
            binds(old(self)@, final(self)@, id, action, encoded, r),
    {
        let mut action = action;
        action.normalize()?;
        let start = matches!(action, CoreAction::Start { .. });
        if id.is_nil() || !start {
            return Err(Error::Invalid("INVALID_CORE_REQUEST"));
        }
        match &mut self.start {
            Some(witness) => {
                witness.request = Some(WitnessRequest { id, action, encoded });
            },
            None => {},
        }
        Ok(())
    }

    /// Tell what an interrupted start came to, from what is seen of its job object. Nothing is
    /// started or ended.
    pub fn inspect_core_start(
        &self,
        generation: Uuid,
        current: &ProcessIdentity,
        creator_running: bool,
        job: Job,
    ) -> (r: Result<Option<ProcessIdentity>>)
        ensures
            r == start_evidence(self@, generation, current@, creator_running, job),
    {
        self.open_core_generation(generation)?;
        match &self.start {
            None => Err(Error::Invalid("CORE_START_WITNESS_MISSING")),
            Some(witness) => {
                if witness.version != 1 || witness.store_id != self.manifest.store_id
                    || witness.generation != generation || witness.nonce.is_nil() || !text::same(
                    witness.creator.user_sid.as_str(),
                    current.user_sid.as_str(),
                ) || witness.creator.session_id != current.session_id || witness.creator.pid == 0
                    || witness.creator.creation_time == 0 || !path::is_absolute(
                    witness.executable.as_str(),
                ) {
                    return Err(Error::Invalid("CORE_START_WITNESS_MISMATCH"));
                }
                if creator_running && !witness.creator.same(current) {
                    return Err(Error::Invalid("CORE_START_CREATOR_STILL_RUNNING"));
                }
                check_job(witness, job)
            },
        }
    }

    /// Settle the receipt of the request whose start was reconciled.
    pub fn resolve_core_start_request(
        &mut self,
        generation: Uuid,
        process: Option<ProcessIdentity>,
        at: u64,
    ) -> (r: Result<()>)
        ensures
            start_resolves(old(self)@, final(self)@, generation, process, at, r),
    {
        let ghost outcome = CoreOutcome::Reconciled { generation, process };
        let (id, encoded) = match &self.start {
            None => {
                return Err(Error::Io { code: FILE_NOT_FOUND });
            },
            Some(witness) => {
                if witness.version != 1 || witness.store_id != self.manifest.store_id
                    || witness.generation != generation {
                    return Err(Error::Invalid("CORE_START_WITNESS_MISMATCH"));
                }
                match &witness.request {
                    None => {
                        return Ok(());
                    },
                    Some(request) => {
                        if !matches!(request.action, CoreAction::Start { .. }) {
                            return Err(Error::Invalid("CORE_START_WITNESS_MISMATCH"));
                        }
                        (request.id, text::copy_bytes(request.encoded.as_slice()))
                    },
                }
            },
        };
        if id.is_nil() {
            return Err(Error::Invalid("INVALID_REQUEST_ID"));
        }
        self.settle_core_request(
            id,
            encoded.as_slice(),
            CoreOutcome::Reconciled { generation, process },
            false,
            at,
        )
    }

    /// Settle the receipts of all requests that asked for this start to be recovered, other than `exclude`.
    /// `encoded` is the encoding of that action. Nothing is settled while a record is damaged.
    pub fn resolve_core_start_recovery_receipts(
        &mut self,
        encoded: &[u8],
        outcome: &CoreOutcome,
        exclude: Uuid,
        at: u64,
    ) -> (r: Result<()>)
        ensures
            recovery_settles(old(self)@, final(self)@, encoded@, outcome@, exclude, at, r),
    {
        validate_outcome(outcome, self.manifest.owner_sid.as_str())?;
        let mut i: usize = 0;
        while i < self.core_requests.len()
            invariant
                i <= self.core_requests.len(),
                self@ == old(self)@,
                outcome_valid(outcome@, self@.manifest.owner_sid@),
                first_damage(self@, 0) == first_damage(self@, i as int),
            decreases self.core_requests.len() - i,
        {
            validate_request(
                &self.core_requests[i],
                self.manifest.store_id,
                self.manifest.owner_sid.as_str(),
            )?;
            i += 1;
        }
        let wanted = digest(encoded);
        let mut i: usize = 0;
        let ghost before = self@;
        while i < self.core_requests.len()
            invariant
                i <= self.core_requests.len(),
                before == old(self)@,
                wanted@ == sha256(encoded@),
                self@ == (StoreView { core_requests: self@.core_requests, ..before }),
                self@.core_requests.len() == before.core_requests.len(),
                first_damage(before, 0) is None,
                outcome_valid(outcome@, before.manifest.owner_sid@),
                forall|k: int|
                    i <= k < before.core_requests.len() ==> #[trigger] self@.core_requests[k]
                        == before.core_requests[k],
                forall|k: int|
                    0 <= k < i ==> (#[trigger] self@.core_requests[k])@ == recovery_settled(
                        before.core_requests[k],
                        encoded@,
                        outcome@,
                        exclude,
                        at,
                    ),
            decreases self.core_requests.len() - i,
        {
            let record = &self.core_requests[i];
            let asked = record.request_id != exclude && text::same_bytes(
                record.digest.as_slice(),
                wanted.as_slice(),
            ) && is_unresolved(&record.phase);
            if asked {
                let ghost records = self.core_requests@;
                let mut record = self.core_requests.remove(i);
                let completed_at: u64 = if at < record.accepted_at {
                    record.accepted_at
                } else {
                    at
                };
                record.phase = CoreRequestPhase::Complete { outcome: outcome.copy(), completed_at };
                self.core_requests.insert(i, record);
                proof {
                    assert(self.core_requests@ =~= records.update(i as int, record));
                }
            }
            i += 1;
        }
        Ok(())
    }
}

/// Why the records from place `i` on may not be used: the first damaged one decides.
pub open spec fn first_damage(store: StoreView, i: int) -> Option<Error>
    decreases store.core_requests.len() - i,
{
    if i < 0 || i >= store.core_requests.len() {
        None
    } else {
        match request_validity(
            store.core_requests[i]@,
            store.manifest.store_id,
            store.manifest.owner_sid@,
        ) {
            Err(e) => Some(e),
            Ok(_) => first_damage(store, i + 1),
        }
    }
}

/// A record once the receipts of a recovery are settled: an unsettled request for exactly that recovery
/// has the outcome, every other record is as before.
pub open spec fn recovery_settled(
    record: CoreRequest,
    encoded: Seq<u8>,
    outcome: OutcomeView,
    exclude: Uuid,
    at: u64,
) -> RequestView {
    if record.request_id != exclude && record.digest@ == sha256(encoded) && unresolved(
        record.phase@,
    ) {
        RequestView { phase: settled_phase(record, outcome, at), ..record@ }
    } else {
        record@
    }
}

/// Settling the receipt of a reconciled start leads from `before` to `after` with this result. A
/// request that is settled already stays as it is.
pub open spec fn start_resolves(
    before: StoreView,
    after: StoreView,
    generation: Uuid,
    process: Option<ProcessIdentity>,
    at: u64,
    result: Result<()>,
) -> bool {
    match before.start {
        None => result == Err::<(), Error>(Error::Io { code: FILE_NOT_FOUND }) && after == before,
        Some(witness) => if witness.version != 1 || witness.store_id != before.manifest.store_id
            || witness.generation != generation {
            result == invalid::<()>("CORE_START_WITNESS_MISMATCH") && after == before
        } else {
            match witness.request {
                None => result == Ok::<(), Error>(()) && after == before,
                Some(request) => if !(request.action is Start) {
                    result == invalid::<()>("CORE_START_WITNESS_MISMATCH") && after == before
                } else if request.id.bits == 0 {
                    result == invalid::<()>("INVALID_REQUEST_ID") && after == before
                } else {
                    settles(
                        before,
                        after,
                        request.id,
                        request.encoded@,
                        (CoreOutcome::Reconciled { generation, process })@,
                        false,
                        at,
                        result,
                    )
                },
            }
        },
    }
}

/// What binding a request to the start under way does and answers.
pub open spec fn binds(
    before: StoreView,
    after: StoreView,
    id: Uuid,
    action: CoreAction,
    encoded: Vec<u8>,
    r: Result<()>,
) -> bool {
    if id.bits == 0 || !(action is Start) || !action_sound(action) {
        r == invalid::<()>("INVALID_CORE_REQUEST") && after == before
    } else {
        &&& r == Ok::<(), Error>(())
        &&& after.start is Some && after.start->0.request is Some
        &&& normal_form(action, after.start->0.request->0.action)
        &&& after == (StoreView {
            start: Some(
                Witness {
                    request: Some(
                        WitnessRequest {
                            id,
                            action: after.start->0.request->0.action,
                            encoded,
                        },
                    ),
                    ..before.start->0
                },
            ),
            ..before
        })
    }
}

/// What preparing a start does and answers.
pub open spec fn start_prepared(
    before: StoreView,
    after: StoreView,
    generation: Uuid,
    nonce: Uuid,
    creator: ProcessIdentity,
    executable: String,
    image: FileIdentity,
    r: Result<()>,
) -> bool {
    match recorded_state(before) {
        Err(e) => r == Err::<(), Error>(e) && after == before,
        Ok(StateView::Starting { .. }) => r == invalid::<()>("CORE_START_RESULT_UNKNOWN")
            && after == before,
        Ok(_) => r == Ok::<(), Error>(()) && after == (StoreView {
            start: Some(
                Witness {
                    version: 1,
                    store_id: before.manifest.store_id,
                    generation,
                    nonce,
                    creator,
                    executable,
                    image,
                    request: None,
                },
            ),
            ..before
        }),
    }
}

/// The command line of the core, or why it must not be started.
pub open spec fn spawn_line(
    witness: Witness,
    generation: Uuid,
    executable: Seq<char>,
    image: FileIdentity,
    config_path: Seq<char>,
    r: Result<Vec<u16>>,
) -> bool {
    if generation != witness.generation || executable != witness.executable@ {
        r == invalid::<Vec<u16>>("CORE_START_BINDING_MISMATCH")
    } else if image != witness.image {
        r == invalid::<Vec<u16>>("CORE_START_IMAGE_CHANGED")
    } else if core_line(executable, config_path).len() >= COMMAND_LIMIT {
        r == invalid::<Vec<u16>>("CORE_COMMAND_TOO_LONG")
    } else {
        r matches Ok(command) && command@ == core_line(executable, config_path).push(0)
    }
}

/// What settling the requests behind a recovered start does and answers.
pub open spec fn recovery_settles(
    before: StoreView,
    after: StoreView,
    encoded: Seq<u8>,
    outcome: OutcomeView,
    exclude: Uuid,
    at: u64,
    r: Result<()>,
) -> bool {
    if !outcome_valid(outcome, before.manifest.owner_sid@) {
        r == invalid::<()>("INVALID_CORE_REQUEST_OUTCOME") && after == before
    } else {
        match first_damage(before, 0) {
            Some(e) => r == Err::<(), Error>(e) && after == before,
            None => {
                &&& r == Ok::<(), Error>(())
                &&& after == (StoreView {
                    core_requests: after.core_requests,
                    ..before
                })
                &&& after.core_requests.len() == before.core_requests.len()
                &&& forall|k: int|
                    0 <= k < before.core_requests.len() ==> (
                    #[trigger] after.core_requests[k])@ == recovery_settled(
                        before.core_requests[k],
                        encoded,
                        outcome,
                        exclude,
                        at,
                    )
            },
        }
    }
}

} // verus!
