//! The platform's start-up, as a sequence of steps: with a valid core
//! configuration it joins the Wi-Fi network, waits for the clock, starts the
//! enabled features (the core feature first) and runs the scheduled tasks; when
//! the configuration is invalid, or any of that fails, it shows why and serves
//! its own access point so that it can be set up.
use vstd::prelude::*;

use crate::status::{InitStatus, Status};

verus! {

/// One step of the start-up; the caller carries it out and reports how it went.
#[derive(Clone, Copy, Debug, PartialEq, Eq, Structural)]
pub enum Step {
    /// Nothing done yet.
    Begin,
    /// Show a status on the LED and the display.
    SetStatus(Status),
    /// Join the configured Wi-Fi network.
    ConnectWifi,
    /// Start the network time client.
    StartTimeSync,
    /// Ask whether the clock has been set.
    CheckTimeSync,
    /// Wait half a second before asking again.
    WaitHalfSecond,
    /// Start a feature (by its position; the core feature is the first).
    StartFeature(usize),
    /// Leave a disabled feature off.
    SkipFeature(usize),
    /// Run the scheduled tasks; this returns only when they cannot go on.
    RunTasks,
    /// Mark the platform as unconfigured and start its own access point.
    StartAccessPoint,
    /// Answer name lookups with the platform's address, for ever.
    ServeAccessPoint,
    /// Give up: the start-up failed in a way that cannot be shown.
    Exit,
}

/// How a step went.
#[derive(Clone, Copy, Debug, PartialEq, Eq, Structural)]
pub enum Outcome {
    Done,
    Failed,
    /// The clock is not set yet.
    NotYet,
}

/// The step for feature `i`, or showing that all is running once none is left.
pub open spec fn feature_step(enabled: Seq<bool>, i: int) -> Step {
    if i < enabled.len() {
        if enabled[i] {
            Step::StartFeature(i as usize)
        } else {
            Step::SkipFeature(i as usize)
        }
    } else {
        Step::SetStatus(Status::Running)
    }
}

/// The step that follows a step and its outcome.
pub open spec fn step_after(prev: Step, outcome: Outcome, core_config_valid: bool, enabled: Seq<bool>) -> Step {
    let error = Step::SetStatus(Status::Error);
    match prev {
        Step::Begin => if core_config_valid {
            Step::SetStatus(Status::Initializing(InitStatus::AwaitingClientIpAddress))
        } else {
            Step::SetStatus(Status::Setup)
        },
        Step::SetStatus(s) => match s {
            Status::Initializing(InitStatus::AwaitingClientIpAddress) => if outcome is Done {
                Step::ConnectWifi
            } else {
                error
            },
            Status::Initializing(InitStatus::AwaitingTimeSync) => if outcome is Done {
                Step::StartTimeSync
            } else {
                error
            },
            Status::Initializing(InitStatus::StartingFeatures) => if outcome is Done {
                feature_step(enabled, 0)
            } else {
                error
            },
            Status::Initializing(InitStatus::Starting) => if outcome is Done {
                Step::Begin
            } else {
                Step::Exit
            },
            Status::Running => if outcome is Done {
                Step::RunTasks
            } else {
                error
            },
            Status::Setup => if outcome is Done {
                Step::StartAccessPoint
            } else {
                Step::Exit
            },
            Status::Error => if outcome is Done {
                Step::StartAccessPoint
            } else {
                Step::Exit
            },
        },
        Step::ConnectWifi => if outcome is Done {
            Step::SetStatus(Status::Initializing(InitStatus::AwaitingTimeSync))
        } else {
            error
        },
        Step::StartTimeSync => if outcome is Done {
            Step::CheckTimeSync
        } else {
            error
        },
        Step::CheckTimeSync => if outcome is NotYet {
            Step::WaitHalfSecond
        } else {
            Step::SetStatus(Status::Initializing(InitStatus::StartingFeatures))
        },
        Step::WaitHalfSecond => Step::CheckTimeSync,
        Step::StartFeature(i) => feature_step(enabled, i + 1),
        Step::SkipFeature(i) => feature_step(enabled, i + 1),
        Step::RunTasks => error,
        Step::StartAccessPoint => if outcome is Done {
            Step::ServeAccessPoint
        } else {
            Step::Exit
        },
        Step::ServeAccessPoint => Step::ServeAccessPoint,
        Step::Exit => Step::Exit,
    }
}

fn feature_step_at(enabled: &Vec<bool>, i: usize) -> (r: Step)
    ensures
        r == feature_step(enabled@, i as int),
{
    if i < enabled.len() {
        if enabled[i] {
            Step::StartFeature(i)
        } else {
            Step::SkipFeature(i)
        }
    } else {
        Step::SetStatus(Status::Running)
    }
}

/// The step that follows a step and its outcome. `enabled` says, for each feature
/// in start order (the core feature first), whether it is switched on; a failed
/// feature does not stop the others.
pub fn next_step(prev: Step, outcome: Outcome, core_config_valid: bool, enabled: &Vec<bool>) -> (r: Step)
    requires
        prev matches Step::StartFeature(i) ==> i < usize::MAX,
        prev matches Step::SkipFeature(i) ==> i < usize::MAX,
    ensures
        r == step_after(prev, outcome, core_config_valid, enabled@),
{
    let error = Step::SetStatus(Status::Error);
    let done = match outcome {
        Outcome::Done => true,
        _ => false,
    };
    match prev {
        Step::Begin => if core_config_valid {
            Step::SetStatus(Status::Initializing(InitStatus::AwaitingClientIpAddress))
        } else {
            Step::SetStatus(Status::Setup)
        },
        Step::SetStatus(s) => match s {
            Status::Initializing(InitStatus::AwaitingClientIpAddress) => if done {
                Step::ConnectWifi
            } else {
                error
            },
            Status::Initializing(InitStatus::AwaitingTimeSync) => if done {
                Step::StartTimeSync
            } else {
                error
            },
            Status::Initializing(InitStatus::StartingFeatures) => if done {
                feature_step_at(enabled, 0)
            } else {
                error
            },
            Status::Initializing(InitStatus::Starting) => if done {
                Step::Begin
            } else {
                Step::Exit
            },
            Status::Running => if done {
                Step::RunTasks
            } else {
                error
            },
            Status::Setup | Status::Error => if done {
                Step::StartAccessPoint
            } else {
                Step::Exit
            },
        },
        Step::ConnectWifi => if done {
            Step::SetStatus(Status::Initializing(InitStatus::AwaitingTimeSync))
        } else {
            error
        },
        Step::StartTimeSync => if done {
            Step::CheckTimeSync
        } else {
            error
        },
        Step::CheckTimeSync => match outcome {
            Outcome::NotYet => Step::WaitHalfSecond,
            _ => Step::SetStatus(Status::Initializing(InitStatus::StartingFeatures)),
        },
        Step::WaitHalfSecond => Step::CheckTimeSync,
        Step::StartFeature(i) => feature_step_at(enabled, i + 1),
        Step::SkipFeature(i) => feature_step_at(enabled, i + 1),
        Step::RunTasks => error,
        Step::StartAccessPoint => if done {
            Step::ServeAccessPoint
        } else {
            Step::Exit
        },
        Step::ServeAccessPoint => Step::ServeAccessPoint,
        Step::Exit => Step::Exit,
    }
}

/// Every feature is either started or left off, in order, before the platform
/// shows that it runs: from the step that shows the features starting, the steps
/// for features `0..n` follow one another, whatever each feature's start gave.
pub proof fn lemma_features_in_order(enabled: Seq<bool>, i: int, outcome: Outcome, valid: bool)
    requires
        0 <= i < enabled.len(),
        i + 1 < usize::MAX,
    ensures
        step_after(feature_step(enabled, i), outcome, valid, enabled) == feature_step(enabled, i + 1),
        step_after(
            Step::SetStatus(Status::Initializing(InitStatus::StartingFeatures)),
            Outcome::Done,
            valid,
            enabled,
        ) == feature_step(enabled, 0),
{
}

/// A failure while joining the network, setting the clock or running the tasks
/// leads to the error being shown and then to the access point.
pub proof fn lemma_failures_lead_to_setup(step: Step, valid: bool, enabled: Seq<bool>)
    requires
        step is ConnectWifi || step is StartTimeSync || step is RunTasks,
    ensures
        step_after(step, Outcome::Failed, valid, enabled) == Step::SetStatus(Status::Error),
        step_after(Step::SetStatus(Status::Error), Outcome::Done, valid, enabled) == Step::StartAccessPoint,
{
}

} // verus!
