//! What a platform offers its features: a place to register scheduled tasks.
use vstd::prelude::*;

use crate::task::TaskError;

verus! {

/// A task that runs on a schedule, given the platform it runs on.
pub trait ScheduledTask<P> {
    /// Runs the task once; an error is the task's own message.
    fn run(&mut self, platform: &mut P) -> Result<(), String>;

    /// The task's name, for the log.
    fn name(&self) -> &str;
}

/// A platform that features run on.
pub trait Platform {}

/// What a feature may do while the platform starts.
pub trait PlatformInitializer {
    type Platform: Platform;

    /// Registers a task under a cron schedule.
    fn add_task(
        &mut self,
        task_initializer: Box<dyn ScheduledTask<Self::Platform>>,
        schedule_spec: &str,
    ) -> Result<(), TaskError>;
}

/// The platform as the standard library's features see it.
pub trait SparkoEmbeddedStd {}

/// A task of the standard platform, run on a schedule.
pub trait Task {
    /// Runs the task once; an error is the task's own message.
    fn run(&mut self, sparko_embedded: &dyn SparkoEmbeddedStd) -> Result<(), String>;

    /// The task's name, for the log.
    fn name(&self) -> &str;
}

/// What a feature may do while the standard platform starts.
pub trait SparkoEmbeddedStdInitializer {
    type EmbeddedStd: SparkoEmbeddedStd;

    /// Registers a task under a cron schedule.
    fn add_task(
        &mut self,
        task_initializer: Box<dyn ScheduledTask<Self::EmbeddedStd>>,
        schedule_spec: &str,
    ) -> Result<(), TaskError>;
}

} // verus!
