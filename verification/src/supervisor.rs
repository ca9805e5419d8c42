//! The one task state of the program, and the supervisor that owns it.
//!
//! At most one task runs at a time. A task is accepted only while the state
//! is idle; an abort can be requested only of a running task, and is taken
//! back when the task has ended, however it ended.

use vstd::prelude::*;
use crate::process::{ProcessError, ProcessErrorView};
use crate::transfer::{TransferError, TransferErrorView};

verus! {

/// Whether a task is running, and whether it has been asked to stop.
#[derive(Clone, Copy, Debug, PartialEq, Eq, Structural)]
pub enum TaskState {
    /// No task is running.
    Idle,
    /// A task is running.
    Running,
    /// A task is running and has been asked to stop.
    AbortRequested,
}

impl TaskState {
    /// Whether a new task is accepted in this state.
    pub open spec fn accepts(self) -> bool {
        self is Idle
    }

    /// The state once a task has been accepted. Only an idle state accepts.
    pub open spec fn accepted(self) -> TaskState {
        if self.accepts() {
            TaskState::Running
        } else {
            self
        }
    }

    /// The state after an abort has been requested. The request takes effect
    /// on a running task and on nothing else.
    pub open spec fn abort_requested(self) -> TaskState {
        if self is Running {
            TaskState::AbortRequested
        } else {
            self
        }
    }

    /// The state after the task has ended.
    pub open spec fn released(self) -> TaskState {
        TaskState::Idle
    }
}

/// The kinds of task that the supervisor runs.
#[derive(Clone, Copy, Debug, PartialEq, Eq, Structural)]
pub enum TaskKind {
    Download,
    Decompress,
    Install,
}

/// Why a task did not end in success.
#[derive(Debug, PartialEq, Eq)]
pub enum TaskError {
    /// Another task was running when this one was asked for. Nothing was
    /// done; the task can be asked for again once the state is idle.
    AlreadyRunning,
    /// The transfer failed.
    TransferFailed { cause: TransferError },
    /// The archive could not be unpacked.
    ExtractionFailed { reason: String },
    /// The file at `path` could not be made ready for the pipeline. No step
    /// was started.
    SetupFailed { path: String, reason: String },
    /// A step of the pipeline failed. The steps after it were not started.
    StepFailed { step_name: String, detail: ProcessError },
    /// The task was stopped on request. This is no failure of the task.
    Aborted,
}

/// `TaskError`, with its texts as sequences of characters.
pub ghost enum TaskErrorView {
    AlreadyRunning,
    TransferFailed { cause: TransferErrorView },
    ExtractionFailed { reason: Seq<char> },
    SetupFailed { path: Seq<char>, reason: Seq<char> },
    StepFailed { step_name: Seq<char>, detail: ProcessErrorView },
    Aborted,
}

impl View for TaskError {
    type V = TaskErrorView;

    open spec fn view(&self) -> TaskErrorView {
        match self {
            TaskError::AlreadyRunning => TaskErrorView::AlreadyRunning,
            TaskError::TransferFailed { cause } => TaskErrorView::TransferFailed { cause: cause@ },
            TaskError::ExtractionFailed { reason } => TaskErrorView::ExtractionFailed {
                reason: reason@,
            },
            TaskError::SetupFailed { path, reason } => TaskErrorView::SetupFailed {
                path: path@,
                reason: reason@,
            },
            TaskError::StepFailed { step_name, detail } => TaskErrorView::StepFailed {
                step_name: step_name@,
                detail: detail@,
            },
            TaskError::Aborted => TaskErrorView::Aborted,
        }
    }
}

impl DeepView for TaskError {
    type V = TaskErrorView;

    open spec fn deep_view(&self) -> TaskErrorView {
        self@
    }
}

impl TaskError {
    /// Whether the task was stopped on request, which is no failure.
    pub fn is_abort(&self) -> (abort: bool)
        ensures
            abort == (self@ is Aborted),
    {
        match self {
            TaskError::Aborted => true,
            _ => false,
        }
    }
}

/// The words in which the success of a task of kind `kind` is told.
pub open spec fn summary_of(kind: TaskKind) -> Seq<char> {
    match kind {
        TaskKind::Download => "Download finished successfully"@,
        TaskKind::Decompress => "Decompression successful"@,
        TaskKind::Install => "Installation successful"@,
    }
}

/// The words in which the success of a task of kind `kind` is told.
pub fn summary(kind: TaskKind) -> (text: String)
    ensures
        text@ == summary_of(kind),
{
    match kind {
        TaskKind::Download => "Download finished successfully".to_owned(),
        TaskKind::Decompress => "Decompression successful".to_owned(),
        TaskKind::Install => "Installation successful".to_owned(),
    }
}

/// What a task of kind `kind` returns when its work ended in `outcome`.
pub open spec fn concluded(kind: TaskKind, outcome: Result<(), TaskErrorView>) -> Result<
    Seq<char>,
    TaskErrorView,
> {
    match outcome {
        Ok(()) => Ok(summary_of(kind)),
        Err(e) => Err(e),
    }
}

/// The result of a task, with its texts as sequences of characters.
pub open spec fn task_result_view(result: Result<String, TaskError>) -> Result<
    Seq<char>,
    TaskErrorView,
> {
    match result {
        Ok(text) => Ok(text@),
        Err(e) => Err(e@),
    }
}

/// The outcome of a task's work, with its texts as sequences of characters.
pub open spec fn outcome_view(outcome: Result<(), TaskError>) -> Result<(), TaskErrorView> {
    match outcome {
        Ok(()) => Ok(()),
        Err(e) => Err(e@),
    }
}

/// The owner of the task state.
#[derive(Debug)]
pub struct TaskSupervisor {
    state: TaskState,
}

impl View for TaskSupervisor {
    type V = TaskState;

    closed spec fn view(&self) -> TaskState {
        self.state
    }
}

impl Default for TaskSupervisor {
    /// A supervisor with no task running.
    fn default() -> (supervisor: TaskSupervisor)
        ensures
            supervisor@ == TaskState::Idle,
    {
        TaskSupervisor { state: TaskState::Idle }
    }
}

impl TaskSupervisor {
    /// A supervisor with no task running.
    pub fn new() -> (supervisor: TaskSupervisor)
        ensures
            supervisor@ == TaskState::Idle,
    {
        TaskSupervisor { state: TaskState::Idle }
    }

    /// The task state.
    pub fn state(&self) -> (state: TaskState)
        ensures
            state == self@,
    {
        self.state
    }

    /// Accepts a task if none is running. Otherwise the task is refused with
    /// `AlreadyRunning`, and the state stays as it is.
    pub fn accept(&mut self) -> (accepted: Result<(), TaskError>)
        ensures
            final(self)@ == old(self)@.accepted(),
            old(self)@.accepts() ==> accepted is Ok && final(self)@ == TaskState::Running,
            !old(self)@.accepts() ==> accepted == Err::<(), TaskError>(TaskError::AlreadyRunning)
                && final(self)@ == old(self)@,
    {
        match self.state {
            TaskState::Idle => {
                self.state = TaskState::Running;
                Ok(())
            },
            _ => Err(TaskError::AlreadyRunning),
        }
    }

    /// Asks the running task to stop. Without a running task, or with one
    /// that has been asked already, nothing changes. The request stops
    /// nothing by itself: the runner of the task sees it at its next poll.
    pub fn request_abort(&mut self)
        ensures
            final(self)@ == old(self)@.abort_requested(),
            old(self)@ is Idle ==> final(self)@ is Idle,
    {
        match self.state {
            TaskState::Running => {
                self.state = TaskState::AbortRequested;
            },
            _ => {},
        }
    }

    /// Whether the running task has been asked to stop.
    pub fn is_abort_state(&self) -> (abort: bool)
        ensures
            abort == (self@ is AbortRequested),
    {
        match self.state {
            TaskState::AbortRequested => true,
            _ => false,
        }
    }

    /// Ends the task: the state is idle again, whatever it was, and with it
    /// any request to abort is taken back.
    pub fn release(&mut self)
        ensures
            final(self)@ == old(self)@.released(),
            final(self)@ is Idle,
    {
        self.state = TaskState::Idle;
    }

    /// Ends a task of kind `kind` whose work ended in `outcome`: the state is
    /// idle again, a success is answered with the summary of the task, and an
    /// error is handed on as it is.
    pub fn conclude(&mut self, kind: TaskKind, outcome: Result<(), TaskError>) -> (result: Result<
        String,
        TaskError,
    >)
        ensures
            final(self)@ is Idle,
            task_result_view(result) == concluded(kind, outcome_view(outcome)),
    {
        self.state = TaskState::Idle;
        match outcome {
            Ok(()) => Ok(summary(kind)),
            Err(e) => Err(e),
        }
    }
}

/// While a task runs, no other is accepted: neither the acceptance that was
/// refused nor any number of requests to abort make the state idle, and only
/// an idle state accepts.
pub proof fn law_one_task_at_a_time(state: TaskState)
    requires
        !state.accepts(),
    ensures
        state.accepted() == state,
        !state.accepted().accepts(),
        !state.abort_requested().accepts(),
        state.released().accepts(),
{
}

/// A request to abort that finds no task running has no effect.
pub proof fn law_abort_without_task_is_ignored(state: TaskState)
    requires
        state is Idle,
    ensures
        state.abort_requested() == state,
{
}

/// An accepted task that is asked to stop is seen to be so asked, once and
/// for as long as it runs, and not after it has ended.
pub proof fn law_abort_reaches_running_task(state: TaskState)
    requires
        state.accepts(),
    ensures
        state.accepted().abort_requested() is AbortRequested,
        state.accepted().abort_requested().abort_requested() is AbortRequested,
        state.accepted().abort_requested().released() is Idle,
{
}

} // verus!
