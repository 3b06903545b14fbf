//! The durable owner of a trace session: its epoch is recorded before the session starts, and a
//! session is recovered only by the epoch that was recorded.
use vstd::prelude::*;
use vstd::string::*;
use crate::error::{Error, Result, invalid};
use crate::ids::Uuid;
use crate::model::{ProcessIdentity, ProcessView};
use crate::text;

verus! {

/// The largest record, in bytes.
pub const LIMIT: u64 = 4096;

/// The record of a session's owner.
#[derive(Debug)]
pub struct EventOwner {
    pub format: String,
    pub store: Uuid,
    pub sid: String,
    pub session: u32,
    pub epoch: Uuid,
}

/// What the journal holds: nothing, something that is no record, or a record.
#[derive(Debug)]
pub enum Recorded {
    Nothing,
    Malformed,
    Owner(EventOwner),
}

/// A record that belongs to this store, user and session.
pub open spec fn owner_matches(owner: EventOwner, store: Uuid, current: ProcessView) -> bool {
    owner.format@ == "app-proxy-rust-event-owner-v1"@ && owner.store == store && owner.sid@
        == current.user_sid && owner.session == current.session_id && owner.epoch.bits != 0
}

/// Whether the journal may be taken over, and the epoch that has to be recovered first.
pub open spec fn takeover(store: Uuid, current: ProcessView, length: u64, recorded: Recorded) -> Result<
    Option<Uuid>,
> {
    if store.bits == 0 || current.session_id == 0 {
        invalid("INVALID_EVENT_OWNER_SCOPE")
    } else if length > LIMIT {
        invalid("EVENT_OWNER_SIZE")
    } else {
        match recorded {
            Recorded::Nothing => Ok(None),
            Recorded::Malformed => invalid("INVALID_EVENT_OWNER"),
            Recorded::Owner(owner) => if owner_matches(owner, store, current) {
                Ok(Some(owner.epoch))
            } else {
                invalid("EVENT_OWNER_MISMATCH")
            },
        }
    }
}

/// Decide whether the journal may be taken over, and which epoch has to be recovered first.
pub fn inspect(store: Uuid, current: &ProcessIdentity, length: u64, recorded: &Recorded) -> (r:
    Result<Option<Uuid>>)
    ensures
        r == takeover(store, current@, length, *recorded),
{
    if store.is_nil() || current.session_id == 0 {
        return Err(Error::Invalid("INVALID_EVENT_OWNER_SCOPE"));
    }
    if length > LIMIT {
        return Err(Error::Invalid("EVENT_OWNER_SIZE"));
    }
    match recorded {
        Recorded::Nothing => Ok(None),
        Recorded::Malformed => Err(Error::Invalid("INVALID_EVENT_OWNER")),
        Recorded::Owner(owner) => {
            if !text::same(owner.format.as_str(), "app-proxy-rust-event-owner-v1") || owner.store
                != store || !text::same(owner.sid.as_str(), current.user_sid.as_str())
                || owner.session != current.session_id || owner.epoch.is_nil() {
                return Err(Error::Invalid("EVENT_OWNER_MISMATCH"));
            }
            Ok(Some(owner.epoch))
        },
    }
}

/// The record that replaces the journal's contents before a session of `epoch` starts. `recovered`
/// is what recovering the recorded epoch came to; while that fails, the old record stays.
pub fn prepare_epoch(
    store: Uuid,
    current: &ProcessIdentity,
    length: u64,
    recorded: &Recorded,
    recovered: Result<()>,
    epoch: Uuid,
) -> (r: Result<EventOwner>)
    ensures
        match takeover(store, current@, length, *recorded) {
            Err(e) => r == Err::<EventOwner, Error>(e),
            Ok(Some(_)) if recovered is Err => r == Err::<EventOwner, Error>(recovered->Err_0),
            Ok(_) => r matches Ok(owner) && owner.format@ == "app-proxy-rust-event-owner-v1"@
                && owner.store == store && owner.sid@ == current.user_sid@ && owner.session
                == current.session_id && owner.epoch == epoch,
        },
{
    if inspect(store, current, length, recorded)?.is_some() {
        recovered?;
    }
    Ok(
        EventOwner {
            format: "app-proxy-rust-event-owner-v1".to_owned(),
            store,
            sid: current.user_sid.clone(),
            session: current.session_id,
            epoch,
        },
    )
}

/// The record that replaces the journal's contents before a session of a new epoch starts.
pub fn prepare(
    store: Uuid,
    current: &ProcessIdentity,
    length: u64,
    recorded: &Recorded,
    recovered: Result<()>,
) -> (r: Result<EventOwner>)
    ensures
        match takeover(store, current@, length, *recorded) {
            Err(e) => r == Err::<EventOwner, Error>(e),
            Ok(Some(_)) if recovered is Err => r == Err::<EventOwner, Error>(recovered->Err_0),
            Ok(_) => r matches Ok(owner) && owner.format@ == "app-proxy-rust-event-owner-v1"@
                && owner.store == store && owner.sid@ == current.user_sid@ && owner.session
                == current.session_id && owner.epoch.random() && owner.epoch.bits != 0,
        },
{
    prepare_epoch(store, current, length, recorded, recovered, Uuid::new_v4())
}

/// What was prepared is recognised by the next run of the same user in the same session, which then
/// recovers exactly that epoch.
pub proof fn prepared_owner_is_recognised(
    owner: EventOwner,
    store: Uuid,
    current: ProcessView,
    epoch: Uuid,
    length: u64,
)
    requires
        store.bits != 0,
        current.session_id != 0,
        epoch.bits != 0,
        length <= LIMIT,
        owner.format@ == "app-proxy-rust-event-owner-v1"@,
        owner.store == store,
        owner.sid@ == current.user_sid,
        owner.session == current.session_id,
        owner.epoch == epoch,
    ensures
        takeover(store, current, length, Recorded::Owner(owner)) == Ok::<Option<Uuid>, Error>(
            Some(epoch),
        ),
{
}

} // verus!
