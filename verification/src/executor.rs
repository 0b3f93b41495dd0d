//! The composite device commands.
//!
//! `set_color_and_power` issues a power-set request and then a color-set
//! request to one device, in that fixed order, over the correlator. The
//! two sub-requests are not atomic: when the power set succeeds and the
//! color set fails, the device is left powered as commanded with its
//! previous color, and the run reports the single composite
//! `DeviceUnreachable` failure rather than ignoring the partial state.

use vstd::prelude::*;

use crate::error::LifxError;
use crate::message::{DeviceAddr, Hsbk, Message, PowerLevel};

verus! {

/// An immutable snapshot of the caller-supplied command parameters,
/// captured at submission time. A job in flight is decoupled from any
/// later change to the caller's working values: nothing here refers back
/// to caller-owned state.
#[derive(Clone, Copy, Debug, PartialEq, Eq, Structural)]
pub struct CommandJob {
    pub device_id: u64,
    pub addr: DeviceAddr,
    pub power_on: bool,
    pub color: Hsbk,
}

/// The externally observable state of one device: its power level and its
/// current color.
#[derive(Clone, Copy, Debug, PartialEq, Eq, Structural)]
pub struct DeviceState {
    pub power: PowerLevel,
    pub color: Hsbk,
}

/// The power level a job asks for.
pub open spec fn power_level_of(job: CommandJob) -> PowerLevel {
    if job.power_on {
        PowerLevel::Enabled
    } else {
        PowerLevel::Standby
    }
}

/// The power sub-request of a job.
pub open spec fn power_message(job: CommandJob) -> Message {
    Message::SetPower { level: power_level_of(job) }
}

/// The color sub-request of a job: an immediate transition to the
/// snapshotted color.
pub open spec fn color_message(job: CommandJob) -> Message {
    Message::SetColor { color: job.color, duration: 0 }
}

/// What a device's observable state becomes when a set-message reaches
/// it; queries and replies change nothing.
pub open spec fn apply_message(s: DeviceState, m: Message) -> DeviceState {
    match m {
        Message::SetPower { level } => DeviceState { power: level, color: s.color },
        Message::SetColor { color, .. } => DeviceState { power: s.power, color },
        _ => s,
    }
}

/// The device state after one composite run that started at `s0`:
/// `power_ok` says whether the power sub-request was delivered, and
/// `color_ok` whether the color one was. The color sub-request is issued
/// only after the power one succeeded.
pub open spec fn state_after_run(
    s0: DeviceState,
    job: CommandJob,
    power_ok: bool,
    color_ok: bool,
) -> DeviceState {
    if !power_ok {
        s0
    } else {
        let s1 = apply_message(s0, power_message(job));
        if color_ok {
            apply_message(s1, color_message(job))
        } else {
            s1
        }
    }
}

/// The two sub-requests of a job in their fixed order: power first, then
/// color.
pub fn command_messages(job: &CommandJob) -> (msgs: Vec<Message>)
    ensures
        msgs@.len() == 2,
        msgs@[0] == power_message(*job),
        msgs@[1] == color_message(*job),
{
    let level = if job.power_on {
        PowerLevel::Enabled
    } else {
        PowerLevel::Standby
    };
    let mut msgs: Vec<Message> = Vec::new();
    msgs.push(Message::SetPower { level });
    msgs.push(Message::SetColor { color: job.color, duration: 0 });
    msgs
}

/// Progress of one composite command run.
pub enum CommandPhase {
    /// The power sub-request is in flight.
    Power,
    /// The power set succeeded; the color sub-request is in flight.
    Color,
    /// The run ended with this composite result.
    Finished { result: Result<(), LifxError> },
}

/// One composite `set_color_and_power` run as a step machine. The caller
/// sends the message the run asks for, reports that sub-request's outcome,
/// and the run decides what follows; the run itself never touches the
/// network.
pub struct CommandRun {
    job: CommandJob,
    phase: CommandPhase,
}

impl CommandRun {
    /// The job this run executes, as snapshotted at the start.
    pub closed spec fn job_spec(self) -> CommandJob {
        self.job
    }

    /// Where the run stands.
    pub closed spec fn phase_spec(self) -> CommandPhase {
        self.phase
    }

    /// Starts a run for `job`: the power sub-request comes first.
    pub fn start(job: CommandJob) -> (run: Self)
        ensures
            run.job_spec() == job,
            run.phase_spec() is Power,
    {
        CommandRun { job, phase: CommandPhase::Power }
    }

    /// The message the caller must now send, or nothing once the run has
    /// finished. The power message is asked for before the color message,
    /// never the other way round.
    pub fn current_message(&self) -> (m: Option<Message>)
        ensures
            match self.phase_spec() {
                CommandPhase::Power => m == Some(power_message(self.job_spec())),
                CommandPhase::Color => m == Some(color_message(self.job_spec())),
                CommandPhase::Finished { .. } => m is None,
            },
    {
        match self.phase {
            CommandPhase::Power => {
                let level = if self.job.power_on {
                    PowerLevel::Enabled
                } else {
                    PowerLevel::Standby
                };
                Some(Message::SetPower { level })
            },
            CommandPhase::Color => Some(
                Message::SetColor { color: self.job.color, duration: 0 },
            ),
            CommandPhase::Finished { .. } => None,
        }
    }

    /// Advances the run on the outcome of the sub-request in flight.
    ///
    /// A successful power set moves on to the color set; a successful
    /// color set finishes the run as a success. Any failed sub-request
    /// finishes the run at once with the composite `DeviceUnreachable`
    /// failure — the color sub-request is never issued after a failed
    /// power set, and a partial failure is surfaced, not swallowed.
    pub fn on_outcome(&mut self, outcome: Result<(), LifxError>)
        requires
            !(old(self).phase_spec() is Finished),
        ensures
            final(self).job_spec() == old(self).job_spec(),
            match old(self).phase_spec() {
                CommandPhase::Power => match outcome {
                    Ok(_) => final(self).phase_spec() is Color,
                    Err(_) => final(self).phase_spec() == (CommandPhase::Finished {
                        result: Err::<(), LifxError>(LifxError::DeviceUnreachable),
                    }),
                },
                CommandPhase::Color => match outcome {
                    Ok(_) => final(self).phase_spec() == (CommandPhase::Finished {
                        result: Ok::<(), LifxError>(()),
                    }),
                    Err(_) => final(self).phase_spec() == (CommandPhase::Finished {
                        result: Err::<(), LifxError>(LifxError::DeviceUnreachable),
                    }),
                },
                CommandPhase::Finished { .. } => false,
            },
    {
        let next = match (&self.phase, &outcome) {
            (CommandPhase::Power, Ok(_)) => CommandPhase::Color,
            (CommandPhase::Color, Ok(_)) => CommandPhase::Finished { result: Ok(()) },
            (_, Err(_)) => CommandPhase::Finished {
                result: Err(LifxError::DeviceUnreachable),
            },
            // A finished run stays finished; the requires above keeps
            // callers from ever reaching this arm.
            (CommandPhase::Finished { result }, Ok(_)) => CommandPhase::Finished {
                result: *result,
            },
        };
        self.phase = next;
    }

    /// The composite result, once the run has finished.
    pub fn result(&self) -> (r: Option<Result<(), LifxError>>)
        ensures
            match self.phase_spec() {
                CommandPhase::Finished { result } => r == Some(result),
                _ => r is None,
            },
    {
        match &self.phase {
            CommandPhase::Finished { result } => Some(*result),
            _ => None,
        }
    }
}

/// Law: a run whose power sub-request succeeds and whose color
/// sub-request then fails reports the composite `DeviceUnreachable`, and
/// the device is left at the commanded power level with its previous
/// color.
pub proof fn lemma_partial_failure_keeps_old_color(s0: DeviceState, job: CommandJob)
    ensures
        state_after_run(s0, job, true, false).power == power_level_of(job),
        state_after_run(s0, job, true, false).color == s0.color,
{
}

/// Law: a fully delivered run leaves the device at the commanded power
/// level and the commanded color; a run whose power sub-request fails
/// leaves the device exactly as it was.
pub proof fn lemma_run_outcomes(s0: DeviceState, job: CommandJob)
    ensures
        state_after_run(s0, job, true, true) == (DeviceState {
            power: power_level_of(job),
            color: job.color,
        }),
        state_after_run(s0, job, false, false) == s0,
{
}

} // verus!
