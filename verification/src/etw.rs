//! Hints about started processes, collected from a trace session. A hint names a process that may
//! matter; it is neither an identity nor a permission.
use vstd::prelude::*;
use vstd::string::*;
use crate::digest::{digest_text, text_digest};
use crate::error::{Error, Result, check, invalid};
use crate::ids::Uuid;
use crate::seqs::{first_where, first_where_found, first_where_is, first_where_none};
use crate::text;

verus! {

/// How many hints wait for delivery at most.
pub const QUEUE_LIMIT: usize = 1024;

/// How many hints one batch holds at most. With names of at most 260 characters a batch stays
/// below the size of one message.
pub const BATCH_LIMIT: usize = 128;

/// The end code of a session that still runs.
pub const RUNNING: u32 = 0xffff_ffff;

/// The status that says that no session of that name exists.
pub const ERROR_WMI_INSTANCE_NOT_FOUND: u32 = 4201;

/// The status that says that a session of that name exists.
pub const ERROR_ALREADY_EXISTS: u32 = 183;

/// The status that says that a consumer ends once its callbacks return.
pub const ERROR_CTX_CLOSE_PENDING: u32 = 7007;

/// The session mode of live delivery.
pub const EVENT_TRACE_REAL_TIME_MODE: u32 = 0x100;

/// The provider whose process events are collected.
pub const PROVIDER: u128 = 0x22fb2cd6_0e7b_422b_a0c7_2fad1fd0e716;

/// A process that was seen to start.
#[derive(Debug)]
pub struct ProcessStartHint {
    pub pid: u32,
    pub creation_time: u64,
    pub image_name: String,
    pub event_time: i64,
}

/// Hints delivered together, with what is known of hints that were lost.
#[derive(Debug)]
pub struct EventBatch {
    pub epoch: Uuid,
    pub sequence: u64,
    pub hints: Vec<ProcessStartHint>,
    pub full_scan_required: bool,
    pub dropped: u64,
    pub decode_failures: u64,
    pub etw_events_lost: u32,
    pub etw_buffers_lost: u32,
    pub ended: Option<u32>,
}

/// What a session has collected and not yet delivered.
#[derive(Debug)]
pub struct State {
    pub hints: Vec<ProcessStartHint>,
    pub sequence: u64,
    pub full_scan: bool,
    pub dropped: u64,
    pub decode_failures: u64,
    pub stop: bool,
    pub events_lost: u32,
    pub buffers_lost: u32,
    pub ended: u32,
}

/// The contents of a collection.
pub struct StateView {
    pub hints: Seq<ProcessStartHint>,
    pub sequence: u64,
    pub full_scan: bool,
    pub dropped: u64,
    pub decode_failures: u64,
    pub stop: bool,
    pub events_lost: u32,
    pub buffers_lost: u32,
    pub ended: u32,
}

impl View for State {
    type V = StateView;

    open spec fn view(&self) -> StateView {
        StateView {
            hints: self.hints@,
            sequence: self.sequence,
            full_scan: self.full_scan,
            dropped: self.dropped,
            decode_failures: self.decode_failures,
            stop: self.stop,
            events_lost: self.events_lost,
            buffers_lost: self.buffers_lost,
            ended: self.ended,
        }
    }
}

/// Two hints about one program under one process number.
pub open spec fn same_program(a: ProcessStartHint, b: ProcessStartHint) -> bool {
    a.pid == b.pid && text::same_folded(a.image_name@, b.image_name@)
}

/// The hints about the program and process number of `hint`.
pub open spec fn about(hint: ProcessStartHint) -> spec_fn(ProcessStartHint) -> bool {
    |other: ProcessStartHint| same_program(other, hint)
}

/// The invariant of a collection: a bounded number of hints, no two about the same program and
/// process number.
pub open spec fn collection_valid(state: StateView) -> bool {
    state.hints.len() <= QUEUE_LIMIT && forall|i: int, j: int|
        0 <= i < j < state.hints.len() ==> !same_program(
            #[trigger] state.hints[i],
            #[trigger] state.hints[j],
        )
}

/// One more in a counter that stays at its maximum.
pub open spec fn counted(value: u64) -> u64 {
    if value == u64::MAX {
        value
    } else {
        (value + 1) as u64
    }
}

/// The collection once a hint is added: a newer hint takes the place of an older one about the same
/// program and process number; a hint that finds no room is counted as dropped.
pub open spec fn pushed(state: StateView, hint: ProcessStartHint) -> StateView {
    match first_where(state.hints, about(hint)) {
        Some(at) => StateView { hints: state.hints.update(at, hint), ..state },
        None => if state.hints.len() == QUEUE_LIMIT {
            StateView { dropped: counted(state.dropped), full_scan: true, ..state }
        } else {
            StateView { hints: state.hints.push(hint), ..state }
        },
    }
}

/// The collection once an event could not be decoded.
pub open spec fn decode_failed(state: StateView) -> StateView {
    StateView { decode_failures: counted(state.decode_failures), full_scan: true, ..state }
}

/// The collection once the session reported its losses. Any change of a counter, downwards too, makes
/// a full scan necessary.
pub open spec fn losses(state: StateView, events: u32, buffers: u32) -> StateView {
    StateView {
        events_lost: events,
        buffers_lost: buffers,
        full_scan: state.full_scan || events != state.events_lost || buffers
            != state.buffers_lost,
        ..state
    }
}

/// How many hints the next batch holds.
pub open spec fn batch_size(state: StateView) -> int {
    if state.hints.len() < BATCH_LIMIT {
        state.hints.len() as int
    } else {
        BATCH_LIMIT as int
    }
}

/// The collection once a batch is taken.
pub open spec fn drained(state: StateView) -> StateView {
    StateView {
        hints: state.hints.skip(batch_size(state)),
        sequence: (state.sequence + 1) as u64,
        full_scan: false,
        ..state
    }
}

/// The batch that is taken from a collection. The end of the session is told only with the last
/// hints.
pub open spec fn batch_of(state: StateView, epoch: Uuid, batch: EventBatch) -> bool {
    batch.epoch == epoch && batch.sequence == state.sequence + 1 && batch.hints@
        == state.hints.take(batch_size(state)) && batch.full_scan_required == (state.full_scan
        || state.ended != RUNNING) && batch.dropped == state.dropped && batch.decode_failures
        == state.decode_failures && batch.etw_events_lost == state.events_lost
        && batch.etw_buffers_lost == state.buffers_lost && batch.ended == (if state.ended
        != RUNNING && batch_size(state) == state.hints.len() {
        Some(state.ended)
    } else {
        None
    })
}

/// The collection after `n` batches.
pub open spec fn drained_times(state: StateView, n: nat) -> StateView
    decreases n,
{
    if n == 0 {
        state
    } else {
        drained(drained_times(state, (n - 1) as nat))
    }
}

/// The hints of the first `n` batches, in order.
pub open spec fn delivered(state: StateView, n: nat) -> Seq<ProcessStartHint>
    decreases n,
{
    if n == 0 {
        Seq::empty()
    } else {
        let before = drained_times(state, (n - 1) as nat);
        delivered(state, (n - 1) as nat) + before.hints.take(batch_size(before))
    }
}

/// Nothing is lost, repeated or reordered by taking batches: what was delivered and what still waits
/// make up the collection.
pub proof fn delivery_keeps_order(state: StateView, n: nat)
    ensures
        delivered(state, n) + drained_times(state, n).hints == state.hints,
    decreases n,
{
    if n == 0 {
        assert(delivered(state, n) + drained_times(state, n).hints =~= state.hints);
    } else {
        delivery_keeps_order(state, (n - 1) as nat);
        let before = drained_times(state, (n - 1) as nat);
        let size = batch_size(before);
        assert(before.hints.take(size) + before.hints.skip(size) =~= before.hints);
        assert(delivered(state, n) + drained_times(state, n).hints =~= delivered(
            state,
            (n - 1) as nat,
        ) + before.hints);
    }
}

/// A session that has ended delivers every waiting hint before it tells its end: after `n` batches
/// the end is told by the next batch exactly when that batch takes the last hints.
pub proof fn end_is_told_last(state: StateView, n: nat, epoch: Uuid, batch: EventBatch)
    requires
        state.ended != RUNNING,
        batch_of(drained_times(state, n), epoch, batch),
    ensures
        batch.ended is Some ==> batch.ended == Some(state.ended) && delivered(state, n + 1)
            == state.hints,
        batch.ended is None ==> drained_times(state, n + 1).hints.len() > 0,
{
    ended_stays(state, n);
    delivery_keeps_order(state, n + 1);
    let before = drained_times(state, n);
    assert(drained_times(state, n + 1) == drained(before));
    if batch.ended is Some {
        assert(drained_times(state, n + 1).hints =~= Seq::empty());
        assert(delivered(state, n + 1) + Seq::empty() =~= delivered(state, n + 1));
    }
}

proof fn ended_stays(state: StateView, n: nat)
    ensures
        drained_times(state, n).ended == state.ended,
    decreases n,
{
    if n > 0 {
        ended_stays(state, (n - 1) as nat);
    }
}

/// No hint is lost in silence: once a hint was added it waits for delivery, or the next batch asks for a full
/// scan.
pub proof fn nothing_is_dropped_silently(
    state: StateView,
    hint: ProcessStartHint,
    epoch: Uuid,
    batch: EventBatch,
)
    requires
        batch_of(pushed(state, hint), epoch, batch),
    ensures
        pushed(state, hint).hints.contains(hint) || batch.full_scan_required,
{
    match first_where(state.hints, about(hint)) {
        Some(at) => {
            first_where_found(state.hints, about(hint));
            assert(pushed(state, hint).hints[at] == hint);
        },
        None => {
            if state.hints.len() != QUEUE_LIMIT {
                assert(pushed(state, hint).hints.last() == hint);
            }
        },
    }
}

/// A control character: `U+0000` to `U+001F` and `U+007F` to `U+009F`.
pub open spec fn control(c: char) -> bool {
    c as u32 <= 0x1f || (0x7f <= c as u32 && c as u32 <= 0x9f)
}

/// The part of a path behind its last separator.
pub open spec fn behind_separator(image: Seq<char>) -> Seq<char>
    decreases image.len(),
{
    if image.len() == 0 {
        image
    } else if crate::path::separator(image.last()) {
        Seq::empty()
    } else {
        behind_separator(image.drop_last()).push(image.last())
    }
}

/// The units that pairs of bytes stand for, the lower byte first.
pub open spec fn little_units(bytes: Seq<u8>) -> Seq<u16> {
    Seq::new(bytes.len() / 2, |i: int| (bytes[2 * i] + 256 * bytes[2 * i + 1]) as u16)
}

/// An event whose numbers are real and whose image has a plausible size.
pub open spec fn event_plausible(pid: u32, creation_time: u64, event_time: i64, length: nat) -> bool {
    pid != 0 && creation_time != 0 && event_time > 0 && 2 <= length <= 4096 && length % 2 == 0
}

/// A name that may stand in a hint.
pub open spec fn name_valid(name: Seq<char>) -> bool {
    0 < name.len() <= 260 && forall|i: int| 0 <= i < name.len() ==> !control(#[trigger] name[i])
}

/// The image path that an event's bytes hold: units with one terminator, at the end.
pub open spec fn event_image(bytes: Seq<u8>, image: Seq<char>) -> bool {
    text::utf16(image).push(0) == little_units(bytes) && !text::utf16(image).contains(0)
}

/// Read units from bytes.
pub fn read_units(bytes: &[u8]) -> (r: Vec<u16>)
    ensures
        r@ == little_units(bytes@),
{
    let mut units: Vec<u16> = Vec::new();
    let mut i: usize = 0;
    let n: usize = bytes.len() / 2;
    while i < n
        invariant
            i <= n,
            n == bytes@.len() / 2,
            bytes@.len() == bytes.len(),
            units@ == little_units(bytes@).take(i as int),
        decreases n - i,
    {
        units.push(bytes[2 * i] as u16 + 256 * (bytes[2 * i + 1] as u16));
        i += 1;
        proof {
            assert(little_units(bytes@).take(i as int) =~= little_units(bytes@).take(i - 1).push(
                little_units(bytes@)[i - 1],
            ));
        }
    }
    proof {
        assert(little_units(bytes@).take(n as int) =~= little_units(bytes@));
    }
    units
}

/// Whether a value is among units.
pub fn has_unit(units: &[u16], value: u16) -> (r: bool)
    ensures
        r == units@.contains(value),
{
    let mut i: usize = 0;
    while i < units.len()
        invariant
            i <= units.len(),
            forall|k: int| 0 <= k < i ==> units@[k] != value,
        decreases units.len() - i,
    {
        if units[i] == value {
            return true;
        }
        i += 1;
    }
    false
}

fn image_tail(image: &str) -> (r: String)
    ensures
        r@ == behind_separator(image@),
{
    let x = text::chars(image);
    let mut start: usize = x.len();
    proof {
        assert(image@.take(x@.len() as int) =~= image@);
        assert(image@.subrange(start as int, x@.len() as int) =~= Seq::<char>::empty());
        assert(behind_separator(image@.take(start as int)) + image@.subrange(
            start as int,
            x@.len() as int,
        ) =~= behind_separator(image@));
    }
    while start > 0 && !crate::path::is_separator(x[start - 1])
        invariant
            start <= x.len(),
            x@ == image@,
            behind_separator(image@.take(start as int)) + image@.subrange(
                start as int,
                x@.len() as int,
            ) == behind_separator(image@),
        decreases start,
    {
        proof {
            let longer = image@.take(start as int);
            assert(longer.drop_last() =~= image@.take(start - 1));
            assert(behind_separator(longer) == behind_separator(image@.take(start - 1)).push(
                image@[start - 1],
            ));
            assert(behind_separator(image@.take(start - 1)) + image@.subrange(
                start - 1,
                x@.len() as int,
            ) =~= behind_separator(longer) + image@.subrange(start as int, x@.len() as int));
        }
        start -= 1;
    }
    proof {
        assert(behind_separator(image@.take(start as int)) =~= Seq::empty());
        assert(image@.subrange(start as int, x@.len() as int) =~= behind_separator(image@));
    }
    let mut name = String::new();
    let mut i: usize = start;
    while i < x.len()
        invariant
            start <= i <= x.len(),
            x@ == image@,
            name@ == image@.subrange(start as int, i as int),
        decreases x.len() - i,
    {
        name.push(x[i]);
        i += 1;
        proof {
            assert(image@.subrange(start as int, i as int) =~= image@.subrange(
                start as int,
                i - 1,
            ).push(image@[i - 1]));
        }
    }
    name
}

fn is_name_valid(name: &str) -> (r: bool)
    ensures
        r == name_valid(name@),
{
    let x = text::chars(name);
    if x.len() == 0 || x.len() > 260 {
        return false;
    }
    let mut i: usize = 0;
    while i < x.len()
        invariant
            i <= x.len(),
            x@ == name@,
            forall|k: int| 0 <= k < i ==> !control(#[trigger] name@[k]),
        decreases x.len() - i,
    {
        let v: u32 = x[i] as u32;
        if v <= 0x1f || (0x7f <= v && v <= 0x9f) {
            proof {
                assert(control(name@[i as int]));
            }
            return false;
        }
        i += 1;
    }
    true
}

/// The hint that an event gives, with the file name of its image and nothing else of the path.
pub fn hint(pid: u32, creation_time: u64, event_time: i64, bytes: &[u8]) -> (r: Result<
    ProcessStartHint,
>)
    ensures
        match r {
            Ok(hint) => event_plausible(pid, creation_time, event_time, bytes@.len()) && hint.pid
                == pid && hint.creation_time == creation_time && hint.event_time == event_time
                && name_valid(hint.image_name@) && exists|image: Seq<char>|
                #[trigger] event_image(bytes@, image) && hint.image_name@ == behind_separator(
                    image,
                ),
            Err(e) => if !event_plausible(pid, creation_time, event_time, bytes@.len()) {
                e == Error::Invalid("INVALID_PROCESS_EVENT")
            } else {
                e == Error::Invalid("INVALID_EVENT_IMAGE") && forall|image: Seq<char>|
                    #[trigger] event_image(bytes@, image) ==> !name_valid(behind_separator(image))
            },
        },
{
    if pid == 0 || creation_time == 0 || event_time <= 0 || bytes.len() < 2 || bytes.len() > 4096
        || bytes.len() % 2 != 0 {
        return Err(Error::Invalid("INVALID_PROCESS_EVENT"));
    }
    let mut units = read_units(bytes);
    let ghost all = units@;
    let last: u16 = units[units.len() - 1];
    units.truncate(units.len() - 1);
    proof {
        assert(all =~= units@.push(last));
    }
    if last != 0 || has_unit(units.as_slice(), 0) {
        proof {
            assert forall|image: Seq<char>| #[trigger] event_image(bytes@, image) implies false by {
                assert(text::utf16(image) =~= text::utf16(image).push(0).drop_last());
                assert(units@ =~= all.drop_last());
                assert(text::utf16(image).push(0).last() == 0);
            }
        }
        return Err(Error::Invalid("INVALID_EVENT_IMAGE"));
    }
    match text::from_utf16(units.as_slice()) {
        None => {
            proof {
                assert forall|image: Seq<char>| #[trigger] event_image(
                    bytes@,
                    image,
                ) implies false by {
                    assert(text::utf16(image) =~= text::utf16(image).push(0).drop_last());
                    assert(units@ =~= all.drop_last());
                }
            }
            Err(Error::Invalid("INVALID_EVENT_IMAGE"))
        },
        Some(image) => {
            proof {
                assert(event_image(bytes@, image@));
                assert forall|other: Seq<char>| #[trigger] event_image(bytes@, other) implies other
                    == image@ by {
                    assert(text::utf16(other) =~= text::utf16(other).push(0).drop_last());
                    assert(units@ =~= all.drop_last());
                    text::utf16_injective(other, image@);
                }
            }
            let name = image_tail(image.as_str());
            if !is_name_valid(name.as_str()) {
                return Err(Error::Invalid("INVALID_EVENT_IMAGE"));
            }
            Ok(ProcessStartHint { pid, creation_time, image_name: name, event_time })
        },
    }
}

/// Whether the reported size of an event property may be read.
pub fn property_size(size: u32, limit: u32) -> (r: Result<()>)
    ensures
        r == (if 0 < size <= limit {
            Ok(())
        } else {
            invalid::<()>("ETW_PROPERTY_SIZE")
        }),
{
    if size == 0 || size > limit {
        return Err(Error::Invalid("ETW_PROPERTY_SIZE"));
    }
    Ok(())
}

/// The number that eight bytes stand for, the first one lowest.
pub open spec fn little64(bytes: Seq<u8>) -> int {
    crate::core_process::little32(bytes, 0) + 0x1_0000_0000 * crate::core_process::little32(
        bytes,
        4,
    )
}

fn read32(bytes: &[u8], at: usize) -> (r: u32)
    requires
        at + 4 <= bytes@.len(),
    ensures
        r == crate::core_process::little32(bytes@, at as int),
{
    bytes[at] as u32 + 256 * (bytes[at + 1] as u32) + 65536 * (bytes[at + 2] as u32) + 16777216 * (
    bytes[at + 3] as u32)
}

/// The hint that the three properties of a process event give. The properties are taken by name, so
/// the header's process number plays no part.
pub fn decode(pid: &[u8], created: &[u8], event_time: i64, image: &[u8]) -> (r: Result<
    ProcessStartHint,
>)
    ensures
        decoded_event(pid@, created@, event_time, image@, r),
{
    if pid.len() != 4 {
        return Err(Error::Invalid("ETW_PROCESS_ID_SIZE"));
    }
    if created.len() != 8 {
        return Err(Error::Invalid("ETW_CREATION_TIME_SIZE"));
    }
    let number: u32 = read32(pid, 0);
    let time: u64 = read32(created, 0) as u64 + 0x1_0000_0000 * (read32(created, 4) as u64);
    hint(number, time, event_time, image)
}

/// Whether an event concerns this collection: it has not been stopped, and the event is the start
/// of a process.
pub fn event_wanted(stop: bool, provider: u128, id: u16) -> (r: bool)
    ensures
        r == (!stop && provider == PROVIDER && id == 1),
{
    !stop && provider == PROVIDER && id == 1
}

impl State {
    /// An empty collection. The first batch asks for a full scan, since processes may have started
    /// before the session did.
    pub fn new() -> (r: State)
        ensures
            r@ == (StateView {
                hints: Seq::empty(),
                sequence: 0,
                full_scan: true,
                dropped: 0,
                decode_failures: 0,
                stop: false,
                events_lost: 0,
                buffers_lost: 0,
                ended: RUNNING,
            }),
            collection_valid(r@),
    {
        let r = State {
            hints: Vec::new(),
            sequence: 0,
            full_scan: true,
            dropped: 0,
            decode_failures: 0,
            stop: false,
            events_lost: 0,
            buffers_lost: 0,
            ended: RUNNING,
        };
        proof {
            assert(r.hints@ =~= Seq::empty());
        }
        r
    }

    /// Add a hint.
    pub fn push(&mut self, hint: ProcessStartHint)
        requires
            collection_valid(old(self)@),
        ensures
            final(self)@ == pushed(old(self)@, hint),
            collection_valid(final(self)@),
    {
        let ghost before = self@;
        let mut at: usize = 0;
        while at < self.hints.len() && !(self.hints[at].pid == hint.pid
            && text::eq_ignore_ascii_case(
            self.hints[at].image_name.as_str(),
            hint.image_name.as_str(),
        ))
            invariant
                at <= self.hints.len(),
                self@ == before,
                forall|k: int| 0 <= k < at ==> !about(hint)(#[trigger] self.hints@[k]),
            decreases self.hints.len() - at,
        {
            at += 1;
        }
        if at < self.hints.len() {
            proof {
                first_where_is(self.hints@, about(hint), at as int);
            }
            self.hints.set(at, hint);
            proof {
                assert forall|i: int, j: int| 0 <= i < j < self.hints@.len() implies !same_program(
                    #[trigger] self.hints@[i],
                    #[trigger] self.hints@[j],
                ) by {
                    let old_hints = before.hints;
                    assert(!same_program(old_hints[i], old_hints[j]));
                    if i == at {
                        assert(same_program(old_hints[i], hint));
                    } else if j == at {
                        assert(same_program(old_hints[j], hint));
                    }
                }
            }
            return;
        }
        proof {
            first_where_none(self.hints@, about(hint));
        }
        if self.hints.len() == QUEUE_LIMIT {
            self.dropped = self.dropped.saturating_add(1);
            self.full_scan = true;
        } else {
            self.hints.push(hint);
            proof {
                assert forall|i: int, j: int| 0 <= i < j < self.hints@.len() implies !same_program(
                    #[trigger] self.hints@[i],
                    #[trigger] self.hints@[j],
                ) by {
                    if j < before.hints.len() {
                        assert(!same_program(before.hints[i], before.hints[j]));
                    } else {
                        assert(!about(hint)(before.hints[i]));
                    }
                }
            }
        }
    }

    /// Count an event that could not be decoded.
    pub fn failed_decode(&mut self)
        requires
            collection_valid(old(self)@),
        ensures
            final(self)@ == decode_failed(old(self)@),
            collection_valid(final(self)@),
    {
        self.decode_failures = self.decode_failures.saturating_add(1);
        self.full_scan = true;
    }

    /// Take in an event: a hint, or the failure to decode it.
    pub fn receive(&mut self, decoded: Result<ProcessStartHint>)
        requires
            collection_valid(old(self)@),
        ensures
            final(self)@ == (match decoded {
                Ok(hint) => pushed(old(self)@, hint),
                Err(_) => decode_failed(old(self)@),
            }),
            collection_valid(final(self)@),
    {
        match decoded {
            Ok(hint) => self.push(hint),
            Err(_) => self.failed_decode(),
        }
    }

    /// Take in the session's counters of lost events and buffers.
    pub fn lost(&mut self, events: u32, buffers: u32)
        requires
            collection_valid(old(self)@),
        ensures
            final(self)@ == losses(old(self)@, events, buffers),
            collection_valid(final(self)@),
    {
        if events != self.events_lost || buffers != self.buffers_lost {
            self.full_scan = true;
        }
        self.events_lost = events;
        self.buffers_lost = buffers;
    }

    /// Take the next batch.
    pub fn drain(&mut self, epoch: Uuid) -> (r: Result<EventBatch>)
        requires
            collection_valid(old(self)@),
        ensures
            if old(self)@.sequence == u64::MAX {
                r == invalid::<EventBatch>("ETW_SEQUENCE_EXHAUSTED") && final(self)@ == old(self)@
            } else {
                r matches Ok(batch) && batch_of(old(self)@, epoch, batch) && final(self)@
                    == drained(old(self)@)
            },
            collection_valid(final(self)@),
    {
        if self.sequence == u64::MAX {
            return Err(Error::Invalid("ETW_SEQUENCE_EXHAUSTED"));
        }
        let ghost before = self@;
        self.sequence = self.sequence + 1;
        let count: usize = if self.hints.len() < BATCH_LIMIT {
            self.hints.len()
        } else {
            BATCH_LIMIT
        };
        let rest = self.hints.split_off(count);
        let mut hints: Vec<ProcessStartHint> = Vec::new();
        hints.append(&mut self.hints);
        self.hints = rest;
        proof {
            assert(hints@ =~= before.hints.take(count as int));
            assert(self.hints@ =~= before.hints.skip(count as int));
        }
        let full_scan_required = self.full_scan || self.ended != RUNNING;
        self.full_scan = false;
        proof {
            assert forall|i: int, j: int| 0 <= i < j < self.hints@.len() implies !same_program(
                #[trigger] self.hints@[i],
                #[trigger] self.hints@[j],
            ) by {
                assert(!same_program(before.hints[i + count], before.hints[j + count]));
            }
        }
        Ok(
            EventBatch {
                epoch,
                sequence: self.sequence,
                hints,
                full_scan_required,
                dropped: self.dropped,
                decode_failures: self.decode_failures,
                etw_events_lost: self.events_lost,
                etw_buffers_lost: self.buffers_lost,
                ended: if self.ended != RUNNING && self.hints.len() == 0 {
                    Some(self.ended)
                } else {
                    None
                },
            },
        )
    }

    /// Take the next batch after the session was queried or flushed. A session that is gone has
    /// ended, with the end code that is known already if there is one; any other failure is the
    /// caller's to deal with, and nothing is taken.
    pub fn drain_after_query(&mut self, epoch: Uuid, query: Result<(u32, u32)>) -> (r: Result<
        EventBatch,
    >)
        requires
            collection_valid(old(self)@),
        ensures
            match after_query(old(self)@, query) {
                Err(e) => r == Err::<EventBatch, Error>(e) && final(self)@ == old(self)@,
                Ok(state) => if state.sequence == u64::MAX {
                    r == invalid::<EventBatch>("ETW_SEQUENCE_EXHAUSTED") && final(self)@ == state
                } else {
                    r matches Ok(batch) && batch_of(state, epoch, batch) && final(self)@
                        == drained(state)
                },
            },
            collection_valid(final(self)@),
    {
        match query {
            Ok((events, buffers)) => {
                self.lost(events, buffers);
            },
            Err(Error::Windows { operation, code }) => {
                if code != ERROR_WMI_INSTANCE_NOT_FOUND {
                    return Err(Error::Windows { operation, code });
                }
                if self.ended == RUNNING {
                    self.ended = ERROR_WMI_INSTANCE_NOT_FOUND;
                }
            },
            Err(e) => {
                return Err(e);
            },
        }
        self.drain(epoch)
    }
}

/// The collection once the session was queried.
pub open spec fn after_query(state: StateView, query: Result<(u32, u32)>) -> Result<StateView> {
    match query {
        Ok((events, buffers)) => Ok(losses(state, events, buffers)),
        Err(Error::Windows { code, operation }) => if code == ERROR_WMI_INSTANCE_NOT_FOUND {
            Ok(
                StateView {
                    ended: if state.ended == RUNNING {
                        ERROR_WMI_INSTANCE_NOT_FOUND
                    } else {
                        state.ended
                    },
                    ..state
                },
            )
        } else {
            Err(Error::Windows { operation, code })
        },
        Err(e) => Err(e),
    }
}

/// The name of the trace session of a store for a user in a session.
pub open spec fn session_name(user_sid: Seq<char>, session_id: u32, store_id: Uuid) -> Seq<char> {
    "AppProxy-Process-"@ + text_digest(user_sid).take(16) + "-"@ + store_id.text() + "-"@
        + text::number(session_id as nat)
}

/// The first characters of a text.
pub fn prefix(text: &str, n: usize) -> (r: String)
    requires
        n <= text@.len(),
    ensures
        r@ == text@.take(n as int),
{
    let x = text::chars(text);
    let mut out = String::new();
    let mut i: usize = 0;
    while i < n
        invariant
            i <= n <= x.len(),
            x@ == text@,
            out@ == text@.take(i as int),
        decreases n - i,
    {
        out.push(x[i]);
        i += 1;
        proof {
            assert(text@.take(i as int) =~= text@.take(i - 1).push(text@[i - 1]));
        }
    }
    out
}

/// The name of the trace session of a store, with its terminator.
pub fn trace_name(user_sid: &str, session_id: u32, store_id: Uuid) -> (r: Result<Vec<u16>>)
    ensures
        if store_id.bits == 0 {
            r == invalid::<Vec<u16>>("INVALID_ETW_SCOPE")
        } else {
            r matches Ok(words) && words@ == text::utf16(
                session_name(user_sid@, session_id, store_id),
            ).push(0)
        },
{
    if store_id.is_nil() {
        return Err(Error::Invalid("INVALID_ETW_SCOPE"));
    }
    let scope = digest_text(user_sid);
    let mut name = text::join3("AppProxy-Process-", prefix(scope.as_str(), 16).as_str(), "-");
    name.append(store_id.to_text().as_str());
    name.append("-");
    text::push_number(&mut name, session_id as u64);
    let mut words = text::encode_utf16(name.as_str());
    words.push(0);
    Ok(words)
}

/// What starting a session came to. A session of the same name is never taken over.
pub fn session_started(store_id: Uuid, epoch: Uuid, status: u32) -> (r: Result<()>)
    ensures
        session_start(store_id, epoch, status, r),
{
    if store_id.is_nil() || epoch.is_nil() {
        return Err(Error::Invalid("INVALID_ETW_SCOPE"));
    }
    if status == ERROR_ALREADY_EXISTS {
        return Err(Error::Invalid("ETW_SESSION_CONFLICT"));
    }
    check(status, "StartProcessTrace")
}

/// What a query tells of a session: its status, its identifier, its name (as long as the buffer),
/// its mode, the first unit of its log file's name, its counters and its handle.
#[derive(Debug)]
pub struct SessionSeen {
    pub status: u32,
    pub guid: u128,
    pub name: Vec<u16>,
    pub mode: u32,
    pub file: u16,
    pub events_lost: u32,
    pub buffers_lost: u32,
    pub handle: u64,
}

/// A session that belongs to this program: its identifier and its name are the recorded ones, it
/// delivers live, and it writes no file.
pub open spec fn session_owned(seen: SessionSeen, guid: u128, name: Seq<u16>) -> bool {
    seen.guid == guid && name.is_prefix_of(seen.name@) && seen.mode & EVENT_TRACE_REAL_TIME_MODE
        != 0 && seen.file == 0
}

/// Check a queried session before anything is done to it.
pub fn session_query(seen: &SessionSeen, guid: u128, name: &[u16]) -> (r: Result<(u32, u32)>)
    ensures
        r == (if seen.status != 0 {
            Err(Error::Windows { operation: "QueryOwnedTrace", code: seen.status })
        } else if session_owned(*seen, guid, name@) {
            Ok((seen.events_lost, seen.buffers_lost))
        } else {
            invalid("ETW_SESSION_OWNER_MISMATCH")
        }),
{
    check(seen.status, "QueryOwnedTrace")?;
    let named = text::words_begin(seen.name.as_slice(), name);
    if seen.guid != guid || !named || seen.mode & EVENT_TRACE_REAL_TIME_MODE == 0 || seen.file
        != 0 {
        return Err(Error::Invalid("ETW_SESSION_OWNER_MISMATCH"));
    }
    Ok((seen.events_lost, seen.buffers_lost))
}

/// What is to be done about a session.
#[derive(Clone, Copy, Debug, PartialEq, Eq, Structural)]
pub enum SessionStep {
    Gone,
    Stop,
}

/// What stopping a session has to do.
pub open spec fn session_stop_due(stopped: bool, seen: SessionSeen, guid: u128, name: Seq<u16>) -> Result<
    SessionStep,
> {
    if stopped || seen.status == ERROR_WMI_INSTANCE_NOT_FOUND {
        Ok(SessionStep::Gone)
    } else if seen.status != 0 {
        Err(Error::Windows { operation: "QueryOwnedTrace", code: seen.status })
    } else if session_owned(seen, guid, name) {
        Ok(SessionStep::Stop)
    } else {
        invalid("ETW_SESSION_OWNER_MISMATCH")
    }
}

/// Whether an owned session has to be stopped. A session that was stopped, or that is gone, needs
/// nothing; one that is not ours is never touched.
pub fn session_stop(stopped: bool, seen: &SessionSeen, guid: u128, name: &[u16]) -> (r: Result<
    SessionStep,
>)
    ensures
        r == session_stop_due(stopped, *seen, guid, name@),
{
    if stopped || seen.status == ERROR_WMI_INSTANCE_NOT_FOUND {
        return Ok(SessionStep::Gone);
    }
    session_query(seen, guid, name)?;
    Ok(SessionStep::Stop)
}

/// What is to be done about a session that an earlier run left behind.
#[derive(Clone, Copy, Debug, PartialEq, Eq, Structural)]
pub enum RecoveryStep {
    Nothing,
    StopHandle { handle: u64 },
}

/// What is due about a session that an earlier run left behind.
pub open spec fn recovery_due(store_id: Uuid, epoch: Uuid, seen: SessionSeen) -> Result<RecoveryStep> {
    if epoch.bits == 0 || store_id.bits == 0 {
        invalid("INVALID_ETW_SCOPE")
    } else if seen.status == ERROR_WMI_INSTANCE_NOT_FOUND {
        Ok(RecoveryStep::Nothing)
    } else if seen.status != 0 {
        Err(Error::Windows { operation: "QueryPreviousTrace", code: seen.status })
    } else if seen.guid != epoch.bits {
        invalid("ETW_SESSION_OWNER_MISMATCH")
    } else if seen.handle == 0 || seen.handle == u64::MAX {
        invalid("ETW_INVALID_RECOVERY_HANDLE")
    } else {
        Ok(RecoveryStep::StopHandle { handle: seen.handle })
    }
}

/// Decide about a session that an earlier run left behind. Only the epoch that the protected journal
/// holds proves that the session is ours; its name alone never does.
pub fn recover_owned(store_id: Uuid, epoch: Uuid, seen: &SessionSeen) -> (r: Result<RecoveryStep>)
    ensures
        r == recovery_due(store_id, epoch, *seen),
{
    if epoch.is_nil() || store_id.is_nil() {
        return Err(Error::Invalid("INVALID_ETW_SCOPE"));
    }
    if seen.status == ERROR_WMI_INSTANCE_NOT_FOUND {
        return Ok(RecoveryStep::Nothing);
    }
    check(seen.status, "QueryPreviousTrace")?;
    if seen.guid != epoch.bits {
        return Err(Error::Invalid("ETW_SESSION_OWNER_MISMATCH"));
    }
    if seen.handle == 0 || seen.handle == u64::MAX {
        return Err(Error::Invalid("ETW_INVALID_RECOVERY_HANDLE"));
    }
    Ok(RecoveryStep::StopHandle { handle: seen.handle })
}

/// What closing a consumer came to; one that ends once its callbacks return counts as closed.
pub fn consumer_closed(status: u32) -> (r: Result<()>)
    ensures
        r == (if status == 0 || status == ERROR_CTX_CLOSE_PENDING {
            Ok(())
        } else {
            Err(Error::Windows { operation: "CloseProcessTrace", code: status })
        }),
{
    if status == ERROR_CTX_CLOSE_PENDING {
        return Ok(());
    }
    check(status, "CloseProcessTrace")
}

/// What is heard of a consumer that was started.
#[derive(Clone, Copy, Debug, PartialEq, Eq, Structural)]
pub enum ConsumerStart {
    Opened,
    Failed { code: u32 },
    Silent,
}

/// What starting a consumer came to.
pub fn consumer_started(heard: ConsumerStart) -> (r: Result<()>)
    ensures
        r == (match heard {
            ConsumerStart::Opened => Ok(()),
            ConsumerStart::Failed { code } => Err(
                Error::Windows { operation: "OpenProcessTrace", code },
            ),
            ConsumerStart::Silent => invalid("ETW_CONSUMER_START_TIMEOUT"),
        }),
{
    match heard {
        ConsumerStart::Opened => Ok(()),
        ConsumerStart::Failed { code } => Err(
            Error::Windows { operation: "OpenProcessTrace", code },
        ),
        ConsumerStart::Silent => Err(Error::Invalid("ETW_CONSUMER_START_TIMEOUT")),
    }
}

/// What stopping a listener came to: its consumer must end in time and in order, then the first
/// failure of stopping the session or closing the consumer is told.
pub fn listener_stopped(
    finished: bool,
    panicked: bool,
    session: Result<()>,
    close: Result<()>,
) -> (r: Result<()>)
    ensures
        stop_verdict(finished, panicked, session, close, r),
{
    if !finished {
        return Err(Error::Invalid("ETW_CONSUMER_STOP_TIMEOUT"));
    }
    if panicked {
        return Err(Error::Invalid("ETW_CONSUMER_PANICKED"));
    }
    session?;
    close
}

/// What came of starting the session.
pub open spec fn session_start(store_id: Uuid, epoch: Uuid, status: u32, r: Result<()>) -> bool {
    r == (if store_id.bits == 0 || epoch.bits == 0 {
        invalid("INVALID_ETW_SCOPE")
    } else if status == ERROR_ALREADY_EXISTS {
        invalid("ETW_SESSION_CONFLICT")
    } else if status == 0 {
        Ok(())
    } else {
        Err(Error::Windows { operation: "StartProcessTrace", code: status })
    })
}

/// What a process event decodes to.
pub open spec fn decoded_event(
    pid: Seq<u8>,
    created: Seq<u8>,
    event_time: i64,
    image: Seq<u8>,
    r: Result<ProcessStartHint>,
) -> bool {
    if pid.len() != 4 {
        r == invalid::<ProcessStartHint>("ETW_PROCESS_ID_SIZE")
    } else if created.len() != 8 {
        r == invalid::<ProcessStartHint>("ETW_CREATION_TIME_SIZE")
    } else {
        let number = crate::core_process::little32(pid, 0) as u32;
        let time = little64(created) as u64;
        match r {
            Ok(hint) => event_plausible(number, time, event_time, image.len()) && hint.pid
                == number && hint.creation_time == time && hint.event_time == event_time
                && name_valid(hint.image_name@) && exists|text: Seq<char>|
                #[trigger] event_image(image, text) && hint.image_name@ == behind_separator(
                    text,
                ),
            Err(e) => if !event_plausible(number, time, event_time, image.len()) {
                e == Error::Invalid("INVALID_PROCESS_EVENT")
            } else {
                e == Error::Invalid("INVALID_EVENT_IMAGE") && forall|text: Seq<char>|
                    #[trigger] event_image(image, text) ==> !name_valid(
                        behind_separator(text),
                    )
            },
        }
    }
}

/// What came of stopping the listener.
pub open spec fn stop_verdict(
    finished: bool,
    panicked: bool,
    session: Result<()>,
    close: Result<()>,
    r: Result<()>,
) -> bool {
    r == (if !finished {
        invalid("ETW_CONSUMER_STOP_TIMEOUT")
    } else if panicked {
        invalid("ETW_CONSUMER_PANICKED")
    } else if session is Err {
        session
    } else {
        close
    })
}

} // verus!
