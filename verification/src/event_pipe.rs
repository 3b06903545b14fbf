//! The one-way stream of hints from the elevated listener to the ordinary coordinator: who may stand
//! at its ends, and which batches may follow each other.
use vstd::prelude::*;
use vstd::string::*;
use crate::error::{Error, Result, invalid};
use crate::etw::{BATCH_LIMIT, EventBatch, ProcessStartHint, control};
use crate::guard_task::check_scope;
use crate::ids::Uuid;
use crate::model::{FileIdentity, ProcessIdentity, ProcessView};
use crate::path::separator;
use crate::text;

verus! {

/// The version of the protocol.
pub const VERSION: u32 = 2;

/// The attributes of the group that names a logon.
pub const LOGON_GROUP: u32 = 0xc000_0000;

/// The sizes between which the description of a logon group lies, in bytes.
pub const GROUPS_MINIMUM: u32 = 24;

pub const GROUPS_LIMIT: u32 = 65536;

/// One message of the stream.
#[derive(Debug)]
pub struct Frame {
    pub version: u32,
    pub store_id: Uuid,
    pub batch: EventBatch,
}

/// Who may stand at the other end: the same user, session and logon, with one of these images, and
/// with the elevation that its side must have.
#[derive(Debug)]
pub struct Policy {
    pub owner_sid: String,
    pub session_id: u32,
    pub logon_sid: String,
    pub allowed_images: Vec<FileIdentity>,
    pub elevated_peer: bool,
}

impl Policy {
    /// The policy of a process for its peer. The peer must have the other elevation.
    pub fn current(
        images: Vec<FileIdentity>,
        current: &ProcessIdentity,
        logon_sid: String,
        elevated_self: bool,
    ) -> (r: Result<Policy>)
        ensures
            policy_made(images, *current, logon_sid, elevated_self, r),
    {
        if images.len() == 0 {
            return Err(Error::Invalid("IPC_NO_ALLOWED_PEER"));
        }
        Ok(
            Policy {
                owner_sid: current.user_sid.clone(),
                session_id: current.session_id,
                logon_sid,
                allowed_images: images,
                elevated_peer: !elevated_self,
            },
        )
    }
}

/// The name of the stream of a store, apart from every other user, store and session.
pub fn address(store: Uuid, policy: &Policy) -> (r: Result<String>)
    ensures
        if store.bits != 0 && policy.owner_sid@.len() > 0 {
            r matches Ok(name) && name@ == "\\\\.\\pipe\\app-proxy-rust-events-"@ + policy.owner_sid@
                + "-"@ + store.text() + "-"@ + text::number(policy.session_id as nat)
        } else {
            r == invalid::<String>("INVALID_IPC_SCOPE")
        },
{
    check_scope(store, policy.owner_sid.as_str())?;
    let mut name = text::join3(
        "\\\\.\\pipe\\app-proxy-rust-events-",
        policy.owner_sid.as_str(),
        "-",
    );
    name.append(store.to_text().as_str());
    name.append("-");
    text::push_number(&mut name, policy.session_id as u64);
    Ok(name)
}

/// The security of the stream: the system and administrators, and readers of one logon, who may not
/// create another end.
pub fn pipe_security(logon_sid: &str) -> (r: String)
    ensures
        r@ == "D:P(A;;GA;;;SY)(A;;GA;;;BA)(A;;GR;;;"@ + logon_sid@ + ")"@,
{
    text::join3("D:P(A;;GA;;;SY)(A;;GA;;;BA)(A;;GR;;;", logon_sid, ")")
}

/// Why a peer is turned away.
pub open spec fn peer_verdict(policy: Policy, peer: ProcessView, logon: Seq<char>) -> Result<()> {
    if peer.user_sid != policy.owner_sid@ {
        invalid("IPC_PEER_USER_MISMATCH")
    } else if peer.session_id != policy.session_id {
        invalid("STORE_SESSION_CONFLICT")
    } else if logon != policy.logon_sid@ {
        invalid("EVENT_LOGON_MISMATCH")
    } else if !policy.allowed_images@.contains(peer.image_file) {
        invalid("IPC_PEER_IMAGE_MISMATCH")
    } else {
        Ok(())
    }
}

/// Whether a file is among those allowed.
pub fn image_allowed(images: &[FileIdentity], image: FileIdentity) -> (r: bool)
    ensures
        r == images@.contains(image),
{
    let mut i: usize = 0;
    while i < images.len()
        invariant
            i <= images.len(),
            forall|k: int| 0 <= k < i ==> images@[k] != image,
        decreases images.len() - i,
    {
        if images[i] == image {
            return true;
        }
        i += 1;
    }
    false
}

/// Check the process at the other end.
pub fn authenticate(policy: &Policy, peer: &ProcessIdentity, logon: &str) -> (r: Result<()>)
    ensures
        r == peer_verdict(*policy, peer@, logon@),
{
    if !text::same(peer.user_sid.as_str(), policy.owner_sid.as_str()) {
        return Err(Error::Invalid("IPC_PEER_USER_MISMATCH"));
    }
    if peer.session_id != policy.session_id {
        return Err(Error::Invalid("STORE_SESSION_CONFLICT"));
    }
    if !text::same(logon, policy.logon_sid.as_str()) {
        return Err(Error::Invalid("EVENT_LOGON_MISMATCH"));
    }
    if !image_allowed(policy.allowed_images.as_slice(), peer.image_file) {
        return Err(Error::Invalid("IPC_PEER_IMAGE_MISMATCH"));
    }
    Ok(())
}

/// Check a token's elevation and restriction before its logon is read.
pub fn token_elevation(token_elevated: u32, restricted: i32, elevated: bool) -> (r: Result<()>)
    ensures
        r == (if (token_elevated != 0) != elevated {
            invalid("EVENT_ELEVATION_MISMATCH")
        } else if restricted != 0 {
            invalid("RESTRICTED_TOKEN_UNSUPPORTED")
        } else {
            Ok(())
        }),
{
    if (token_elevated != 0) != elevated {
        return Err(Error::Invalid("EVENT_ELEVATION_MISMATCH"));
    }
    if restricted != 0 {
        return Err(Error::Invalid("RESTRICTED_TOKEN_UNSUPPORTED"));
    }
    Ok(())
}

/// Check the size of the description of a token's logon before it is read.
pub fn token_groups_size(length: u32) -> (r: Result<()>)
    ensures
        r == (if GROUPS_MINIMUM <= length <= GROUPS_LIMIT {
            Ok(())
        } else {
            invalid::<()>("INVALID_LOGON_SID")
        }),
{
    if length < GROUPS_MINIMUM || length > GROUPS_LIMIT {
        return Err(Error::Invalid("INVALID_LOGON_SID"));
    }
    Ok(())
}

/// The logon of a token: exactly one group, marked as the logon's.
pub fn token_logon(count: u32, attributes: u32, sid: String) -> (r: Result<String>)
    ensures
        r == (if count == 1 && attributes & LOGON_GROUP == LOGON_GROUP {
            Ok(sid)
        } else {
            invalid::<String>("INVALID_LOGON_SID")
        }),
{
    if count != 1 || attributes & LOGON_GROUP != LOGON_GROUP {
        return Err(Error::Invalid("INVALID_LOGON_SID"));
    }
    Ok(sid)
}

/// What to do when the stream could not be opened.
#[derive(Clone, Copy, Debug, PartialEq, Eq, Structural)]
pub enum ConnectStep {
    Retry,
}

/// Whether to try again: only while the stream does not exist or is busy, and only in time.
pub fn connect_failed(code: u32, late: bool) -> (r: Result<ConnectStep>)
    ensures
        r == (if code != 2 && code != 231 {
            Err(Error::Io { code })
        } else if late {
            invalid("IPC_CONNECT_TIMEOUT")
        } else {
            Ok(ConnectStep::Retry)
        }),
{
    if code != 2 && code != 231 {
        return Err(Error::Io { code });
    }
    if late {
        return Err(Error::Invalid("IPC_CONNECT_TIMEOUT"));
    }
    Ok(ConnectStep::Retry)
}

/// The four counters of losses in a batch.
#[derive(Clone, Copy, Debug, PartialEq, Eq, Structural)]
pub struct Counters {
    pub dropped: u64,
    pub decode_failures: u64,
    pub events_lost: u32,
    pub buffers_lost: u32,
}

/// What is remembered of the batch before.
#[derive(Clone, Copy, Debug, PartialEq, Eq, Structural)]
pub struct Previous {
    pub epoch: Uuid,
    pub sequence: u64,
    pub counters: Counters,
}

/// How far one connection has come.
#[derive(Clone, Copy, Debug, PartialEq, Eq, Structural)]
pub struct Cursor {
    pub previous: Option<Previous>,
    pub ended: bool,
}

/// The counters of a batch.
pub open spec fn counters_of(batch: EventBatch) -> Counters {
    Counters {
        dropped: batch.dropped,
        decode_failures: batch.decode_failures,
        events_lost: batch.etw_events_lost,
        buffers_lost: batch.etw_buffers_lost,
    }
}

/// A hint that may travel: real numbers and a plain file name.
pub open spec fn hint_sound(hint: ProcessStartHint) -> bool {
    hint.pid != 0 && hint.event_time > 0 && hint.creation_time != 0 && 0 < hint.image_name@.len()
        <= 260 && forall|i: int|
        0 <= i < hint.image_name@.len() ==> !control(#[trigger] hint.image_name@[i]) && !separator(
            hint.image_name@[i],
        )
}

/// A batch that may travel.
pub open spec fn batch_sound(batch: EventBatch) -> bool {
    batch.epoch.bits != 0 && batch.sequence != 0 && batch.hints@.len() <= BATCH_LIMIT && forall|
        i: int,
    |
        0 <= i < batch.hints@.len() ==> hint_sound(#[trigger] batch.hints@[i])
}

/// What observing a batch comes to: nothing follows the end, batches are of one epoch and go
/// forward.
pub open spec fn observation(cursor: Cursor, batch: EventBatch) -> Result<()> {
    if cursor.ended || !batch_sound(batch) {
        invalid("INVALID_EVENT_BATCH")
    } else {
        match cursor.previous {
            Some(previous) => if previous.epoch != batch.epoch || batch.sequence
                <= previous.sequence {
                invalid("EVENT_SEQUENCE_MISMATCH")
            } else {
                Ok(())
            },
            None => Ok(()),
        }
    }
}

/// Whether a scan is needed besides the hints of a batch: the batch asks for it, it is the first of
/// its connection, a batch is missing before it, a counter of losses changed, or the session ended.
pub open spec fn scan_needed(cursor: Cursor, batch: EventBatch) -> bool {
    batch.full_scan_required || batch.ended is Some || match cursor.previous {
        Some(previous) => previous.sequence + 1 != batch.sequence || previous.counters
            != counters_of(batch),
        None => true,
    }
}

/// The cursor once a batch was observed.
pub open spec fn advanced(batch: EventBatch) -> Cursor {
    Cursor {
        previous: Some(
            Previous {
                epoch: batch.epoch,
                sequence: batch.sequence,
                counters: counters_of(batch),
            },
        ),
        ended: batch.ended is Some,
    }
}

fn is_hint_sound(hint: &ProcessStartHint) -> (r: bool)
    ensures
        r == hint_sound(*hint),
{
    let x = text::chars(hint.image_name.as_str());
    if hint.pid == 0 || hint.event_time <= 0 || hint.creation_time == 0 || x.len() == 0 || x.len()
        > 260 {
        return false;
    }
    let mut i: usize = 0;
    while i < x.len()
        invariant
            i <= x.len(),
            x@ == hint.image_name@,
            forall|k: int|
                0 <= k < i ==> !control(#[trigger] hint.image_name@[k]) && !separator(
                    hint.image_name@[k],
                ),
        decreases x.len() - i,
    {
        let c = x[i];
        let v: u32 = c as u32;
        if v <= 0x1f || (0x7f <= v && v <= 0x9f) || c == '/' || c == '\\' {
            proof {
                assert(control(hint.image_name@[i as int]) || separator(
                    hint.image_name@[i as int],
                ));
            }
            return false;
        }
        i += 1;
    }
    true
}

fn is_batch_sound(batch: &EventBatch) -> (r: bool)
    ensures
        r == batch_sound(*batch),
{
    if batch.epoch.is_nil() || batch.sequence == 0 || batch.hints.len() > BATCH_LIMIT {
        return false;
    }
    let mut i: usize = 0;
    while i < batch.hints.len()
        invariant
            i <= batch.hints.len(),
            forall|k: int| 0 <= k < i ==> hint_sound(#[trigger] batch.hints@[k]),
        decreases batch.hints.len() - i,
    {
        if !is_hint_sound(&batch.hints[i]) {
            proof {
                assert(!hint_sound(batch.hints@[i as int]));
            }
            return false;
        }
        i += 1;
    }
    true
}

impl Default for Cursor {
    fn default() -> (r: Cursor)
        ensures
            r == (Cursor { previous: None, ended: false }),
    {
        Cursor { previous: None, ended: false }
    }
}

impl Cursor {
    /// Check a batch against those before it and note whether it needs a scan. A refused batch
    /// changes nothing.
    pub fn observe(&mut self, batch: &mut EventBatch) -> (r: Result<()>)
        ensures
            observed_step(*old(self), *final(self), *old(batch), *final(batch), r),
    {
        if self.ended || !is_batch_sound(batch) {
            return Err(Error::Invalid("INVALID_EVENT_BATCH"));
        }
        let counters = Counters {
            dropped: batch.dropped,
            decode_failures: batch.decode_failures,
            events_lost: batch.etw_events_lost,
            buffers_lost: batch.etw_buffers_lost,
        };
        let gap = match self.previous {
            Some(previous) => {
                if previous.epoch != batch.epoch || batch.sequence <= previous.sequence {
                    return Err(Error::Invalid("EVENT_SEQUENCE_MISMATCH"));
                }
                previous.sequence + 1 != batch.sequence || previous.counters != counters
            },
            None => true,
        };
        batch.full_scan_required = batch.full_scan_required || gap || batch.ended.is_some();
        self.previous = Some(
            Previous { epoch: batch.epoch, sequence: batch.sequence, counters },
        );
        self.ended = batch.ended.is_some();
        Ok(())
    }
}

/// A batch is accepted at most once on a connection, and nothing is accepted after the end.
pub proof fn replay_is_refused(cursor: Cursor, first: EventBatch, second: EventBatch)
    requires
        observation(cursor, first) is Ok,
        second.sequence <= first.sequence || first.ended is Some,
    ensures
        observation(advanced(first), second) is Err,
{
}

/// A batch that follows directly and without loss needs no scan unless it asks for one.
pub proof fn unbroken_stream_needs_no_scan(first: EventBatch, second: EventBatch)
    requires
        second.sequence == first.sequence + 1,
        counters_of(second) == counters_of(first),
        second.ended is None,
    ensures
        scan_needed(advanced(first), second) == second.full_scan_required,
{
}

/// One end of the stream. A message that was begun and not completed seals the end for good.
#[derive(Debug)]
pub struct Stream {
    pub store_id: Uuid,
    pub cursor: Cursor,
    pub poisoned: bool,
}

/// Sending a batch: the end of the stream after it, and the message.
pub open spec fn sending(stream: Stream, batch: EventBatch) -> (Stream, Result<Frame>) {
    if stream.poisoned {
        (stream, invalid("IPC_CONNECTION_CLOSED"))
    } else {
        match observation(stream.cursor, batch) {
            Err(e) => (Stream { poisoned: true, ..stream }, Err(e)),
            Ok(_) => (
                Stream { cursor: advanced(batch), poisoned: true, ..stream },
                Ok(
                    Frame {
                        version: VERSION,
                        store_id: stream.store_id,
                        batch: EventBatch {
                            full_scan_required: scan_needed(stream.cursor, batch),
                            ..batch
                        },
                    },
                ),
            ),
        }
    }
}

/// Taking in a message: the end of the stream after it, and the batch.
pub open spec fn receiving(stream: Stream, frame: Result<Frame>) -> (Stream, Result<EventBatch>) {
    match frame {
        Err(e) => (stream, Err(e)),
        Ok(frame) => if frame.version != VERSION || frame.store_id != stream.store_id {
            (stream, invalid("EVENT_PROTOCOL_MISMATCH"))
        } else {
            match observation(stream.cursor, frame.batch) {
                Err(e) => (stream, Err(e)),
                Ok(_) => (
                    Stream { cursor: advanced(frame.batch), poisoned: false, ..stream },
                    Ok(
                        EventBatch {
                            full_scan_required: scan_needed(stream.cursor, frame.batch),
                            ..frame.batch
                        },
                    ),
                ),
            }
        },
    }
}

impl Stream {
    /// A fresh end of the stream of a store.
    pub fn new(store_id: Uuid) -> (r: Stream)
        ensures
            r == (Stream {
                store_id,
                cursor: Cursor { previous: None, ended: false },
                poisoned: false,
            }),
    {
        Stream { store_id, cursor: Cursor { previous: None, ended: false }, poisoned: false }
    }

    /// The message to be sent next. The end stays sealed until `sent` reports success.
    pub fn send(&mut self, batch: EventBatch) -> (r: Result<Frame>)
        ensures
            (*final(self), r) == sending(*old(self), batch),
    {
        if self.poisoned {
            return Err(Error::Invalid("IPC_CONNECTION_CLOSED"));
        }
        self.poisoned = true;
        let mut batch = batch;
        self.cursor.observe(&mut batch)?;
        Ok(Frame { version: VERSION, store_id: self.store_id, batch })
    }

    /// Take note that the message was sent, or that it was not.
    pub fn sent(&mut self, outcome: Result<()>) -> (r: Result<()>)
        ensures
            r == outcome,
            *final(self) == (if outcome is Ok {
                Stream { poisoned: false, ..*old(self) }
            } else {
                *old(self)
            }),
    {
        outcome?;
        self.poisoned = false;
        Ok(())
    }

    /// Begin to receive. The end stays sealed until `received` accepts a message.
    pub fn receive(&mut self) -> (r: Result<()>)
        ensures
            r == (if old(self).poisoned {
                invalid::<()>("IPC_CONNECTION_CLOSED")
            } else {
                Ok(())
            }),
            *final(self) == (Stream { poisoned: true, ..*old(self) }),
    {
        if self.poisoned {
            return Err(Error::Invalid("IPC_CONNECTION_CLOSED"));
        }
        self.poisoned = true;
        Ok(())
    }

    /// Take in the message that was read.
    pub fn received(&mut self, frame: Result<Frame>) -> (r: Result<EventBatch>)
        ensures
            (*final(self), r) == receiving(*old(self), frame),
    {
        let frame = frame?;
        if frame.version != VERSION || frame.store_id != self.store_id {
            return Err(Error::Invalid("EVENT_PROTOCOL_MISMATCH"));
        }
        let mut batch = frame.batch;
        self.cursor.observe(&mut batch)?;
        self.poisoned = false;
        Ok(batch)
    }
}

/// The policy of the process that listens.
pub open spec fn policy_made(
    images: Vec<FileIdentity>,
    current: ProcessIdentity,
    logon_sid: String,
    elevated_self: bool,
    r: Result<Policy>,
) -> bool {
    r == (if images@.len() == 0 {
        invalid::<Policy>("IPC_NO_ALLOWED_PEER")
    } else {
        Ok(
            Policy {
                owner_sid: current.user_sid,
                session_id: current.session_id,
                logon_sid,
                allowed_images: images,
                elevated_peer: !elevated_self,
            },
        )
    })
}

/// What a batch that arrives does and answers.
pub open spec fn observed_step(
    stream: Cursor,
    next: Cursor,
    batch: EventBatch,
    told: EventBatch,
    r: Result<()>,
) -> bool {
    &&& (r == observation(stream, batch))
    &&& (next == (if r is Ok {
        advanced(batch)
    } else {
        stream
    }))
    &&& (told == (if r is Ok {
        EventBatch {
            full_scan_required: scan_needed(stream, batch),
            ..batch
        }
    } else {
        batch
    }))
}

} // verus!
