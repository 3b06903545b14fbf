//! The elevated listener. It sends hints and nothing else; it takes no commands and neither starts,
//! ends nor configures an application.
use vstd::prelude::*;
use crate::error::{Error, Result, invalid};
use crate::etw::{BATCH_LIMIT, EventBatch};
use crate::model::FileIdentity;

verus! {

/// How long the listener waits for its coordinator, in milliseconds.
pub const CONNECT_TIMEOUT: u64 = 30000;

/// The time between two checks of the session, in milliseconds.
pub const HEARTBEAT: u64 = 20;

/// Refuse to run from any file but the deployed one.
pub fn check_image(current: FileIdentity, deployed: FileIdentity) -> (r: Result<()>)
    ensures
        r == (if current == deployed {
            Ok(())
        } else {
            invalid::<()>("GUARD_LISTENER_IMAGE_MISMATCH")
        }),
{
    if current != deployed {
        return Err(Error::Invalid("GUARD_LISTENER_IMAGE_MISMATCH"));
    }
    Ok(())
}

/// What waiting for a coordinator brought.
#[derive(Debug)]
pub enum Accepted {
    Peer,
    Stranger,
    Failed(Error),
    Late,
}

/// What to do next while waiting for a coordinator.
#[derive(Clone, Copy, Debug, PartialEq, Eq, Structural)]
pub enum AcceptStep {
    Serve,
    WaitAgain,
}

/// The next step of waiting. Strangers are turned away without extending the deadline, which all
/// attempts share; a failure of the endpoint itself ends the wait.
pub open spec fn acceptance(accepted: Accepted) -> Result<AcceptStep> {
    match accepted {
        Accepted::Peer => Ok(AcceptStep::Serve),
        Accepted::Stranger => Ok(AcceptStep::WaitAgain),
        Accepted::Failed(error) => Err(error),
        Accepted::Late => invalid("EVENT_COORDINATOR_TIMEOUT"),
    }
}

/// Decide the next step of waiting for a coordinator.
pub fn accept_step(accepted: Accepted) -> (r: Result<AcceptStep>)
    ensures
        r == acceptance(accepted),
{
    match accepted {
        Accepted::Peer => Ok(AcceptStep::Serve),
        Accepted::Stranger => Ok(AcceptStep::WaitAgain),
        Accepted::Failed(error) => Err(error),
        Accepted::Late => Err(Error::Invalid("EVENT_COORDINATOR_TIMEOUT")),
    }
}

/// What waiting comes to when these are the attempts in order; a wait that runs out of attempts
/// is late.
pub open spec fn waiting(attempts: Seq<Accepted>, from: int) -> Result<()>
    decreases attempts.len() - from,
{
    if from < 0 || from >= attempts.len() {
        invalid("EVENT_COORDINATOR_TIMEOUT")
    } else {
        match acceptance(attempts[from]) {
            Err(e) => Err(e),
            Ok(AcceptStep::Serve) => Ok(()),
            Ok(AcceptStep::WaitAgain) => waiting(attempts, from + 1),
        }
    }
}

/// However many strangers come first, a wait is decided by the first attempt that is none.
pub proof fn strangers_do_not_decide(attempts: Seq<Accepted>, n: int)
    requires
        0 <= n < attempts.len(),
        forall|k: int| 0 <= k < n ==> #[trigger] attempts[k] is Stranger,
    ensures
        waiting(attempts, 0) == waiting(attempts, n),
{
    skip_strangers(attempts, 0, n);
}

proof fn skip_strangers(attempts: Seq<Accepted>, from: int, n: int)
    requires
        0 <= from <= n < attempts.len(),
        forall|k: int| 0 <= k < n ==> #[trigger] attempts[k] is Stranger,
    ensures
        waiting(attempts, from) == waiting(attempts, n),
    decreases n - from,
{
    if from < n {
        assert(attempts[from] is Stranger);
        skip_strangers(attempts, from + 1, n);
    }
}

/// The delivery of batches. `backlog` says that the last batch was full, so that more may wait.
#[derive(Clone, Copy, Debug, PartialEq, Eq, Structural)]
pub struct Pump {
    pub backlog: bool,
}

/// Why the next batch is taken: the timer, which also flushes the session, or what already waits.
#[derive(Clone, Copy, Debug, PartialEq, Eq, Structural)]
pub enum Wake {
    Timer,
    Ready,
    Backlog,
}

/// What a delivered batch means for the delivery.
#[derive(Debug)]
pub enum Delivery {
    Continue,
    Ended(Result<()>),
}

/// How a session that ended with this code is told.
pub open spec fn session_end(code: u32) -> Result<()> {
    if code == 0 {
        Ok(())
    } else {
        Err(Error::Windows { operation: "ProcessTraceEnded", code })
    }
}

impl Pump {
    /// A delivery that has taken nothing yet.
    pub fn new() -> (r: Pump)
        ensures
            r == (Pump { backlog: false }),
    {
        Pump { backlog: false }
    }

    /// Which of the causes that are at hand takes the next batch. The timer comes first, so that a
    /// busy session cannot starve the checks of ownership and loss.
    pub fn wake(&self, timer: bool, ready: bool) -> (r: Option<Wake>)
        ensures
            woken(self.backlog, timer, ready, r),
    {
        if timer {
            Some(Wake::Timer)
        } else if ready {
            Some(Wake::Ready)
        } else if self.backlog {
            Some(Wake::Backlog)
        } else {
            None
        }
    }

    /// Whether the session is flushed before a batch is taken.
    pub fn flushes(wake: Wake) -> (r: bool)
        ensures
            r == (wake == Wake::Timer),
    {
        matches!(wake, Wake::Timer)
    }

    /// Take note of a batch that is about to be sent: its size tells whether more waits.
    pub fn taken(&mut self, batch: &EventBatch)
        ensures
            *final(self) == (Pump { backlog: batch.hints@.len() == BATCH_LIMIT }),
    {
        self.backlog = batch.hints.len() == BATCH_LIMIT;
    }

    /// What follows once a batch was sent, or was not. The last batch is sent before the end is told.
    pub fn delivered(ended: Option<u32>, sent: Result<()>) -> (r: Delivery)
        ensures
            r == (match sent {
                Err(e) => Delivery::Ended(Err(e)),
                Ok(_) => match ended {
                    Some(code) => Delivery::Ended(session_end(code)),
                    None => Delivery::Continue,
                },
            }),
    {
        match sent {
            Err(e) => Delivery::Ended(Err(e)),
            Ok(_) => match ended {
                Some(code) => if code == 0 {
                    Delivery::Ended(Ok(()))
                } else {
                    Delivery::Ended(Err(Error::Windows { operation: "ProcessTraceEnded", code }))
                },
                None => Delivery::Continue,
            },
        }
    }
}

/// What a run of the listener comes to: the delivery's failure, or else that of stopping the session.
pub fn finished(delivery: Result<()>, stopped: Result<()>) -> (r: Result<()>)
    ensures
        r == (if delivery is Err {
            delivery
        } else {
            stopped
        }),
{
    delivery?;
    stopped
}

/// What the listener is woken for.
pub open spec fn woken(backlog: bool, timer: bool, ready: bool, r: Option<Wake>) -> bool {
    r == (if timer {
        Some(Wake::Timer)
    } else if ready {
        Some(Wake::Ready)
    } else if backlog {
        Some(Wake::Backlog)
    } else {
        None
    })
}

} // verus!
