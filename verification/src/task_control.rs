//! The messages between the master control program and the long-running tasks
//! it supervises, and the statuses they report.
use vstd::prelude::*;

verus! {

/// The receiving end of a std channel, carried opaquely.
#[verifier::external_type_specification]
#[verifier::external_body]
#[verifier::reject_recursive_types(T)]
pub struct ExReceiver<T>(std::sync::mpsc::Receiver<T>);

/// The sending end of a std channel, carried opaquely.
#[verifier::external_type_specification]
#[verifier::external_body]
#[verifier::reject_recursive_types(T)]
pub struct ExSender<T>(std::sync::mpsc::Sender<T>);

/// `std::sync::mpsc::channel`: a new channel's sending and receiving ends.
#[verifier::external_body]
fn channel<T>() -> (r: (std::sync::mpsc::Sender<T>, std::sync::mpsc::Receiver<T>)) {
    std::sync::mpsc::channel()
}

/// The number of a process within a task.
pub type ProcessId = usize;

/// A task that runs on a thread of its own, talking to the master control program
/// through its client.
pub trait ThreadTask {
    fn start(self, task_client: TaskClient);
}

/// How a supervised task is watched.
pub struct TaskConfig {
    pub heart_beat_freq: std::time::Duration,
}

/// How a task is run.
#[derive(Clone, Copy, Debug, PartialEq, Eq, Structural)]
pub enum TaskType {
    Scheduled,
    Thread,
}

/// The state that a process reports of itself.
#[derive(Clone, Copy, Debug, PartialEq, Eq, Structural)]
pub enum DeclaredProcessStatus {
    Initializing,
    OK,
    Warning,
    Error,
    Failed,
    Terminated,
}

/// The state in which the master control program sees a process.
#[derive(Clone, Copy, Debug, PartialEq, Eq, Structural)]
pub enum ObservedProcessStatus {
    Starting,
    Running,
    Delayed,
    Dead,
}

/// What the master control program tells a task.
#[derive(Clone, Copy, Debug, PartialEq, Eq, Structural)]
pub enum TaskControlMessage {
    Shutdown,
    Quiesce,
    Start,
}

/// The state that a task reports of itself.
#[derive(Clone, Copy, Debug, PartialEq, Eq, Structural)]
pub enum DeclaredTaskStatus {
    Initializing,
    Idle,
    Starting,
    Running,
    ShuttingDown,
}

/// What a task reports to the master control program.
#[derive(Clone, Copy, Debug, PartialEq, Eq, Structural)]
pub enum TaskStatusMessage {
    ProcessStatus { pid: ProcessId, status: DeclaredProcessStatus },
    TaskStatus(DeclaredTaskStatus),
}

/// A task's end of its connection to the master control program.
pub struct TaskClient {
    pub control_receiver: std::sync::mpsc::Receiver<TaskControlMessage>,
    pub status_sender: std::sync::mpsc::Sender<TaskStatusMessage>,
}

/// A process of a task, as the master control program sees it.
pub struct ProcessHolder {
    pub id: ProcessId,
    pub declared_status: DeclaredProcessStatus,
    pub observed_status: ObservedProcessStatus,
}

/// A supervised task with the master control program's end of its connection.
pub struct TaskHolder<T> {
    pub task: T,
    pub current_processes: Vec<ProcessHolder>,
    pub control_sender: std::sync::mpsc::Sender<TaskControlMessage>,
    pub status_receiver: std::sync::mpsc::Receiver<TaskStatusMessage>,
    pub declared_status: DeclaredTaskStatus,
}

/// Collects the tasks of a master control program.
pub struct MasterControlProgramBuilder<T> {
    tasks: Vec<TaskHolder<T>>,
}

/// Supervises long-running tasks.
pub struct MasterControlProgram<T> {
    tasks: Vec<TaskHolder<T>>,
}

impl<T> MasterControlProgramBuilder<T> {
    /// The number of tasks collected.
    pub closed spec fn task_count(&self) -> nat {
        self.tasks@.len()
    }

    fn new() -> (r: Self)
        ensures
            r.task_count() == 0,
    {
        MasterControlProgramBuilder { tasks: Vec::new() }
    }

    /// Opens the two channels of a task and pairs the task with its end of them.
    /// The pairing is not kept: the builder stays as it was.
    pub fn add_task(&mut self, task: T, config: TaskConfig)
        ensures
            *final(self) == *old(self),
    {
        let (control_sender, control_receiver) = channel();
        let (status_sender, status_receiver) = channel();
        let _task_holder = TaskHolder {
            task,
            current_processes: Vec::new(),
            control_sender,
            status_receiver,
            declared_status: DeclaredTaskStatus::Initializing,
        };
        let _task_client = TaskClient { control_receiver, status_sender };
    }

    /// `add_task`, in the chaining style: the builder comes back as it was.
    pub fn with_task(self, task: T, config: TaskConfig) -> (r: Self)
        ensures
            r == self,
    {
        let mut b = self;
        b.add_task(task, config);
        b
    }

    /// The master control program of the collected tasks.
    pub fn build(self) -> (r: MasterControlProgram<T>)
        ensures
            r.task_count() == self.task_count(),
    {
        MasterControlProgram { tasks: self.tasks }
    }
}

impl<T> MasterControlProgram<T> {
    /// The number of tasks supervised.
    pub closed spec fn task_count(&self) -> nat {
        self.tasks@.len()
    }

    /// A builder with no task.
    pub fn builder() -> (r: MasterControlProgramBuilder<T>)
        ensures
            r.task_count() == 0,
    {
        MasterControlProgramBuilder::new()
    }
}

} // verus!
