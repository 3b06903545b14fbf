//! What hints about processes are worth, who may hear them, and when they are not enough, in terms of what is seen.
use vstd::prelude::*;
use vstd::string::*;
use crate::error::{Error, invalid};
use crate::etw::{EventBatch, ProcessStartHint, RecoveryStep, SessionSeen, SessionStep, StateView, after_query, batch_of, behind_separator, decode_failed, drained, event_plausible, losses, pushed, recovery_due, session_stop_due};
use crate::event_journal::{Recorded, takeover};
use crate::event_pipe::{Cursor, Frame, Policy, Stream, advanced, batch_sound, observation, peer_verdict, receiving, scan_needed, sending};
use crate::guard_listener::{AcceptStep, Accepted, acceptance};
use crate::ids::Uuid;
use crate::model::ProcessView;
use crate::path;
use crate::text;

verus! {

/// A newer hint takes the place of the older one about the same program and process number, and of no other; a hint
/// about something new is put behind the others, while there is room, and else counted as dropped, with a scan to
/// make up for it.
pub proof fn hints_are_gathered_once(state: StateView, hint: ProcessStartHint, at: int)
    ensures
        ({
            let after = pushed(state, hint);
            let known = exists|i: int|
                0 <= i < state.hints.len() && (#[trigger] state.hints[i]).pid == hint.pid && text::same_folded(
                    state.hints[i].image_name@,
                    hint.image_name@,
                );
            &&& !known && state.hints.len() < 1024 ==> after.hints == state.hints.push(hint) && after.dropped
                == state.dropped && after.full_scan == state.full_scan
            &&& !known && state.hints.len() == 1024 ==> after.hints == state.hints && after.full_scan && (state.dropped
                < u64::MAX ==> after.dropped == state.dropped + 1)
            &&& known ==> after.hints.len() == state.hints.len() && after.hints.contains(hint) && after.dropped
                == state.dropped && after.full_scan == state.full_scan
            &&& known && 0 <= at < state.hints.len() && !(state.hints[at].pid == hint.pid && text::same_folded(
                state.hints[at].image_name@,
                hint.image_name@,
            )) ==> after.hints[at] == state.hints[at]
        }),
{
    crate::seqs::first_where_found(state.hints, crate::etw::about(hint));
    let after = pushed(state, hint);
    match crate::seqs::first_where(state.hints, crate::etw::about(hint)) {
        Some(place) => {
            assert(state.hints[place].pid == hint.pid);
            assert(after.hints[place] == hint);
        },
        None => {
            assert forall|i: int| 0 <= i < state.hints.len() implies !((#[trigger] state.hints[i]).pid == hint.pid
                && text::same_folded(state.hints[i].image_name@, hint.image_name@)) by {
                assert(!crate::etw::about(hint)(state.hints[i]));
            }
        },
    }
}

/// A failure to decode and every change of the session's own losses call for a scan; what was called for once stays so
/// until a batch is taken.
pub proof fn losses_call_for_a_scan(state: StateView, events: u32, buffers: u32)
    ensures
        decode_failed(state).full_scan && decode_failed(state).hints == state.hints,
        state.decode_failures < u64::MAX ==> decode_failed(state).decode_failures == state.decode_failures + 1,
        losses(state, events, buffers).full_scan <==> state.full_scan || events != state.events_lost || buffers
            != state.buffers_lost,
        losses(state, events, buffers).events_lost == events && losses(state, events, buffers).buffers_lost == buffers,
{
}

/// A batch holds the oldest hints, in order, at most so many; it tells the losses, and calls for a scan if one is
/// called for or the session has ended. The hints that it holds are taken away, and those alone.
pub proof fn batches_take_the_oldest(state: StateView, epoch: Uuid, batch: EventBatch, i: int)
    requires
        batch_of(state, epoch, batch),
    ensures
        batch.epoch == epoch && batch.sequence == state.sequence + 1,
        batch.hints@.len() <= 128 && (batch.hints@.len() == state.hints.len() || batch.hints@.len() == 128),
        0 <= i < batch.hints@.len() ==> batch.hints@[i] == state.hints[i],
        drained(state).hints.len() == state.hints.len() - batch.hints@.len(),
        0 <= i < drained(state).hints.len() ==> drained(state).hints[i] == state.hints[i + batch.hints@.len()],
        state.full_scan ==> batch.full_scan_required,
        batch.dropped == state.dropped && batch.decode_failures == state.decode_failures && batch.etw_events_lost
            == state.events_lost && batch.etw_buffers_lost == state.buffers_lost,
        !drained(state).full_scan,
{
}

/// A session that is gone has ended; any other failure of asking for it is told.
pub proof fn missing_sessions_have_ended(state: StateView, code: u32, operation: &'static str)
    ensures
        match after_query(state, Err(Error::Windows { operation, code })) {
            Ok(after) => code == 4201 && after.ended != u32::MAX && after.hints == state.hints,
            Err(e) => code != 4201 && e == (Error::Windows { operation, code }),
        },
{
}

/// A session is stopped only if it is this program's own: under its identifier and its name, live and without a file.
/// One that an earlier run left is stopped only if the protected journal holds its identifier; a name proves nothing.
pub proof fn foreign_sessions_are_left_alone(
    stopped: bool,
    seen: SessionSeen,
    guid: u128,
    name: Seq<u16>,
    store: Uuid,
    epoch: Uuid,
)
    ensures
        session_stop_due(stopped, seen, guid, name) == Ok::<SessionStep, Error>(SessionStep::Stop) ==> !stopped
            && seen.status == 0 && seen.guid == guid && name.is_prefix_of(seen.name@) && seen.file == 0 && seen.mode
            & 0x100 != 0,
        recovery_due(store, epoch, seen) matches Ok(RecoveryStep::StopHandle { handle }) ==> seen.status == 0 && seen.guid
            == epoch.bits && epoch.bits != 0 && store.bits != 0 && handle == seen.handle && handle != 0,
        seen.status == 0 && seen.guid != epoch.bits && epoch.bits != 0 && store.bits != 0 ==> recovery_due(
            store,
            epoch,
            seen,
        ) == invalid::<RecoveryStep>("ETW_SESSION_OWNER_MISMATCH"),
{
}

/// An event is taken for the start of a process only if its numbers are real and its image has a plausible size.
pub proof fn events_have_real_numbers(pid: u32, creation_time: u64, event_time: i64, length: nat)
    ensures
        event_plausible(pid, creation_time, event_time, length) <==> pid != 0 && creation_time != 0 && event_time > 0
            && 2 <= length <= 4096 && length % 2 == 0,
{
}

/// Of a path only what stands behind its last separator is told.
pub proof fn only_the_file_name_is_told(image: Seq<char>)
    ensures
        behind_separator(image).len() <= image.len(),
        behind_separator(image) == image.skip(image.len() - behind_separator(image).len()),
        !behind_separator(image).contains('\\') && !behind_separator(image).contains('/'),
        behind_separator(image).len() < image.len() ==> image[image.len() - behind_separator(image).len() - 1] == '\\'
            || image[image.len() - behind_separator(image).len() - 1] == '/',
    decreases image.len(),
{
    if image.len() > 0 && !crate::path::separator(image.last()) {
        let front = image.drop_last();
        only_the_file_name_is_told(front);
        let name = behind_separator(front);
        let told = behind_separator(image);
        assert(told =~= image.skip(image.len() - told.len()));
        assert forall|k: int| 0 <= k < told.len() implies told[k] != '\\' && told[k] != '/' by {
            if k < name.len() {
                assert(name.contains(name[k]));
            }
        }
    } else {
        assert(behind_separator(image) =~= Seq::<char>::empty());
        assert(behind_separator(image) =~= image.skip(image.len() as int));
    }
}

/// A peer is heard only if it is of the same user, session and logon, and runs one of the allowed files.
pub proof fn peers_are_known(policy: Policy, peer: ProcessView, logon: Seq<char>)
    ensures
        peer_verdict(policy, peer, logon) is Ok <==> peer.user_sid == policy.owner_sid@ && peer.session_id
            == policy.session_id && logon == policy.logon_sid@ && exists|i: int|
            0 <= i < policy.allowed_images@.len() && #[trigger] policy.allowed_images@[i] == peer.image_file,
{
    if policy.allowed_images@.contains(peer.image_file) {
        let i = choose|i: int|
            0 <= i < policy.allowed_images@.len() && policy.allowed_images@[i] == peer.image_file;
        assert(policy.allowed_images@[i] == peer.image_file);
    }
}

/// A batch is accepted only if it is sound, follows those before in its epoch, and comes before the end.
pub proof fn batches_follow_each_other(cursor: Cursor, batch: EventBatch)
    ensures
        observation(cursor, batch) is Ok <==> !cursor.ended && batch_sound(batch) && (cursor.previous matches Some(p)
            ==> p.epoch == batch.epoch && p.sequence < batch.sequence),
        batch_sound(batch) ==> batch.epoch.bits != 0 && batch.sequence != 0 && batch.hints@.len() <= 128 && forall|i: int|
            0 <= i < batch.hints@.len() ==> (#[trigger] batch.hints@[i]).pid != 0 && batch.hints@[i].creation_time != 0
                && batch.hints@[i].event_time > 0 && 0 < batch.hints@[i].image_name@.len() <= 260,
        advanced(batch).ended <==> batch.ended is Some,
        advanced(batch).previous matches Some(p) && p.epoch == batch.epoch && p.sequence == batch.sequence,
{
    if batch_sound(batch) {
        assert forall|i: int| 0 <= i < batch.hints@.len() implies (#[trigger] batch.hints@[i]).pid != 0
            && batch.hints@[i].creation_time != 0 && batch.hints@[i].event_time > 0 && 0
            < batch.hints@[i].image_name@.len() <= 260 by {
            assert(crate::event_pipe::hint_sound(batch.hints@[i]));
        }
    }
}

/// The hints of a batch are enough only if it follows the one before directly, no loss has changed since, the session
/// goes on, and the batch itself calls for nothing more; a first batch never is enough.
pub proof fn gaps_and_losses_call_for_a_scan(cursor: Cursor, batch: EventBatch)
    ensures
        !scan_needed(cursor, batch) <==> !batch.full_scan_required && batch.ended is None && (cursor.previous matches Some(
            p,
        ) && p.sequence + 1 == batch.sequence && p.counters.dropped == batch.dropped && p.counters.decode_failures
            == batch.decode_failures && p.counters.events_lost == batch.etw_events_lost && p.counters.buffers_lost
            == batch.etw_buffers_lost),
{
}

/// A stream carries the batches of one store. What is taken in is what was sent but for the call for a scan, which may
/// only be added; a message of another store or version is refused, and a failure seals the sending end.
pub proof fn streams_carry_one_store(stream: Stream, batch: EventBatch, frame: Frame)
    ensures
        sending(stream, batch).1 matches Ok(made) ==> !stream.poisoned && made.store_id == stream.store_id
            && made.batch.hints == batch.hints && made.batch.epoch == batch.epoch && made.batch.sequence
            == batch.sequence && made.batch.ended == batch.ended && (batch.full_scan_required
            ==> made.batch.full_scan_required),
        sending(stream, batch).0.poisoned,
        receiving(stream, Ok(frame)).1 matches Ok(told) ==> frame.store_id == stream.store_id && told.hints
            == frame.batch.hints && told.epoch == frame.batch.epoch && told.sequence == frame.batch.sequence && told.ended
            == frame.batch.ended && (frame.batch.full_scan_required ==> told.full_scan_required)
            && !receiving(stream, Ok(frame)).0.poisoned,
        receiving(stream, Ok(frame)).1 is Err ==> receiving(stream, Ok(frame)).0 == stream,
        frame.store_id != stream.store_id ==> receiving(stream, Ok(frame)).1 is Err,
{
}

/// The journal of a session is taken over only by the user and in the session that it is of, and tells the epoch that
/// has to be recovered first.
pub proof fn journals_are_taken_over_by_their_own(store: Uuid, current: ProcessView, length: u64, recorded: Recorded)
    ensures
        takeover(store, current, length, recorded) matches Ok(found) ==> {
            &&& store.bits != 0 && current.session_id != 0
            &&& match recorded {
                Recorded::Nothing => found is None,
                Recorded::Malformed => false,
                Recorded::Owner(owner) => found == Some(owner.epoch) && owner.epoch.bits != 0 && owner.store == store
                    && owner.sid@ == current.user_sid && owner.session == current.session_id,
            }
        },
        store.bits != 0 && current.session_id != 0 && length <= 4096 && (recorded matches Recorded::Owner(owner) && (
        owner.sid@ != current.user_sid || owner.session != current.session_id || owner.store != store)) ==> takeover(
            store,
            current,
            length,
            recorded,
        ) is Err,
{
}

/// The listener serves its peer, passes strangers by, and gives up on a failure or when time is up.
pub proof fn strangers_are_passed_by(accepted: Accepted)
    ensures
        acceptance(accepted) == Ok::<AcceptStep, Error>(AcceptStep::Serve) <==> accepted is Peer,
        acceptance(accepted) == Ok::<AcceptStep, Error>(AcceptStep::WaitAgain) <==> accepted is Stranger,
{
}

/// A batch is taken if it has an epoch and a number, is not too long, and every hint in it tells a real process by the
/// bare name of its file.
pub proof fn sound_batches_are_taken(batch: EventBatch)
    requires
        batch.epoch.bits != 0,
        batch.sequence != 0,
        batch.hints@.len() <= 128,
        forall|i: int|
            0 <= i < batch.hints@.len() ==> (#[trigger] batch.hints@[i]).pid != 0 && batch.hints@[i].creation_time != 0
                && batch.hints@[i].event_time > 0 && 0 < batch.hints@[i].image_name@.len() <= 260,
        forall|i: int, j: int|
            0 <= i < batch.hints@.len() && 0 <= j < batch.hints@[i].image_name@.len() ==> {
                let c = #[trigger] batch.hints@[i].image_name@[j];
                !crate::etw::control(c) && c != '/' && c != '\\'
            },
    ensures
        batch_sound(batch),
{
    assert forall|i: int| 0 <= i < batch.hints@.len() implies crate::event_pipe::hint_sound(#[trigger] batch.hints@[i]) by {
        let name = batch.hints@[i].image_name@;
        assert forall|j: int| 0 <= j < name.len() implies !crate::etw::control(#[trigger] name[j]) && !path::separator(
            name[j],
        ) by {
            assert(batch.hints@[i].image_name@[j] == name[j]);
        }
    }
}

/// A hint with a path, or with a name that cannot be shown, spoils its batch.
pub proof fn paths_spoil_a_batch(batch: EventBatch, i: int, j: int)
    requires
        0 <= i < batch.hints@.len(),
        0 <= j < batch.hints@[i].image_name@.len(),
        ({
            let c = batch.hints@[i].image_name@[j];
            crate::etw::control(c) || c == '/' || c == '\\'
        }),
    ensures
        !batch_sound(batch),
{
    if batch_sound(batch) {
        assert(crate::event_pipe::hint_sound(batch.hints@[i]));
    }
}

/// The end is told with the last of the hints, and not before.
pub proof fn the_end_comes_with_the_last_hints(state: StateView, epoch: Uuid, batch: EventBatch)
    requires
        batch_of(state, epoch, batch),
    ensures
        batch.ended is Some <==> state.ended != crate::etw::RUNNING && batch.hints@.len() == state.hints.len(),
        batch.ended matches Some(code) ==> code == state.ended,
        state.ended != crate::etw::RUNNING ==> batch.full_scan_required,
        batch.full_scan_required ==> state.full_scan || state.ended != crate::etw::RUNNING,
{
}

/// A frame is taken if it is of this version and of the stream's store and its batch follows what went before.
pub proof fn fitting_frames_are_taken(stream: Stream, frame: Frame)
    ensures
        receiving(stream, Ok(frame)).1 is Ok <==> frame.version == 2 && frame.store_id == stream.store_id && observation(
            stream.cursor,
            frame.batch,
        ) is Ok,
        frame.version != 2 ==> receiving(stream, Ok(frame)).1 == invalid::<EventBatch>("EVENT_PROTOCOL_MISMATCH"),
{
}

/// The journal of a store is taken over by the same user in the same session, and begun where there is none.
pub proof fn own_journals_are_taken_over(store: Uuid, current: ProcessView, length: u64, recorded: Recorded)
    requires
        store.bits != 0,
        current.session_id != 0,
    ensures
        length > 4096 ==> takeover(store, current, length, recorded) == invalid::<Option<Uuid>>("EVENT_OWNER_SIZE"),
        length <= 4096 && recorded is Nothing ==> takeover(store, current, length, recorded) == Ok::<Option<Uuid>, Error>(
            None,
        ),
        length <= 4096 && (recorded matches Recorded::Owner(owner) && owner.format@ == "app-proxy-rust-event-owner-v1"@
            && owner.store == store && owner.sid@ == current.user_sid && owner.session == current.session_id
            && owner.epoch.bits != 0) ==> takeover(store, current, length, recorded) is Ok,
{
}

} // verus!
