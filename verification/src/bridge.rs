//! Lifecycle and job queue of the execution bridge.
//!
//! The bridge owns the background scheduler that outlives any single
//! caller action. Its lifecycle is explicit — `start` and `stop` are real
//! operations, and the scheduler stays alive while started even when no
//! job is queued. A synchronous caller hands work in through the queue:
//! fire-and-forget jobs are immutable snapshots taken at submission time,
//! and the scheduler drains them in submission order.

use vstd::prelude::*;

use crate::executor::CommandJob;

verus! {

/// Whether the bridge's scheduler is running.
#[derive(Clone, Copy, Debug, PartialEq, Eq, Structural)]
pub enum BridgePhase {
    Stopped,
    Running,
}

/// The bridge's decision state: its lifecycle phase and the queue of
/// submitted fire-and-forget jobs, oldest first.
pub struct Bridge {
    phase: BridgePhase,
    queue: Vec<CommandJob>,
}

impl View for Bridge {
    type V = Seq<CommandJob>;

    closed spec fn view(&self) -> Seq<CommandJob> {
        self.queue@
    }
}

impl Bridge {
    /// The lifecycle phase.
    pub closed spec fn phase_spec(self) -> BridgePhase {
        self.phase
    }

    /// A bridge that has not been started: stopped, with an empty queue.
    pub fn new() -> (b: Self)
        ensures
            b.phase_spec() == BridgePhase::Stopped,
            b@ =~= Seq::<CommandJob>::empty(),
    {
        Bridge { phase: BridgePhase::Stopped, queue: Vec::new() }
    }

    /// Starts the scheduler. Queued jobs are untouched.
    pub fn start(&mut self)
        ensures
            final(self).phase_spec() == BridgePhase::Running,
            final(self)@ =~= old(self)@,
    {
        self.phase = BridgePhase::Running;
    }

    /// Stops the scheduler: a real operation, not an unreachable state.
    /// Jobs already queued stay queued; they are simply no longer taken.
    pub fn stop(&mut self)
        ensures
            final(self).phase_spec() == BridgePhase::Stopped,
            final(self)@ =~= old(self)@,
    {
        self.phase = BridgePhase::Stopped;
    }

    /// Whether the scheduler is running.
    pub fn is_running(&self) -> (r: bool)
        ensures
            r == (self.phase_spec() == BridgePhase::Running),
    {
        match self.phase {
            BridgePhase::Running => true,
            BridgePhase::Stopped => false,
        }
    }

    /// Submits a fire-and-forget job and returns at once, without waiting
    /// for or observing its result.
    ///
    /// The job is an owned snapshot: exactly the value passed here is
    /// queued, decoupled from whatever the caller's working values become
    /// afterwards. A stopped bridge accepts nothing and reports so.
    pub fn submit_fire_and_forget(&mut self, job: CommandJob) -> (accepted: bool)
        ensures
            accepted == (old(self).phase_spec() == BridgePhase::Running),
            final(self).phase_spec() == old(self).phase_spec(),
            accepted ==> final(self)@ =~= old(self)@.push(job),
            !accepted ==> final(self)@ =~= old(self)@,
    {
        match self.phase {
            BridgePhase::Running => {
                self.queue.push(job);
                true
            },
            BridgePhase::Stopped => false,
        }
    }

    /// Hands the scheduler the oldest queued job, in submission order;
    /// nothing while the bridge is stopped or the queue is empty. An empty
    /// queue does not end the scheduler: the bridge stays in its phase.
    pub fn take_next(&mut self) -> (job: Option<CommandJob>)
        ensures
            final(self).phase_spec() == old(self).phase_spec(),
            match job {
                Some(j) => {
                    &&& old(self).phase_spec() == BridgePhase::Running
                    &&& old(self)@.len() > 0
                    &&& j == old(self)@[0]
                    &&& final(self)@ =~= old(self)@.drop_first()
                },
                None => {
                    &&& (old(self).phase_spec() == BridgePhase::Stopped || old(self)@.len() == 0)
                    &&& final(self)@ =~= old(self)@
                },
            },
    {
        match self.phase {
            BridgePhase::Running => {
                if self.queue.len() > 0 {
                    let job = self.queue.remove(0);
                    Some(job)
                } else {
                    None
                }
            },
            BridgePhase::Stopped => None,
        }
    }
}

} // verus!
