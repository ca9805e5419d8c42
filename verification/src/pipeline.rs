//! The install pipeline: its steps, and the order in which they run.
//!
//! The steps run one after the other. A step has to end in success for the
//! next to start; the first that does not ends the pipeline, and the steps
//! after it are never started.

use vstd::prelude::*;
use crate::layout::{join_path, joined};
use crate::process::{result_view, ProcessError, ProcessErrorView};
use crate::supervisor::{TaskError, TaskErrorView};

verus! {

/// One step of a pipeline: a program to run, with its arguments, in a
/// directory.
#[derive(Debug, PartialEq, Eq)]
pub struct Step {
    /// The name by which a failure of the step is reported.
    pub name: String,
    pub executable: String,
    pub arguments: Vec<String>,
    pub working_dir: String,
}

/// `Step`, with its texts as sequences of characters.
pub ghost struct StepView {
    pub name: Seq<char>,
    pub executable: Seq<char>,
    pub arguments: Seq<Seq<char>>,
    pub working_dir: Seq<char>,
}

impl View for Step {
    type V = StepView;

    open spec fn view(&self) -> StepView {
        StepView {
            name: self.name@,
            executable: self.executable@,
            arguments: self.arguments.deep_view(),
            working_dir: self.working_dir@,
        }
    }
}

impl DeepView for Step {
    type V = StepView;

    open spec fn deep_view(&self) -> StepView {
        self@
    }
}

/// The permission bits of a file.
#[derive(Clone, Copy, Debug, PartialEq, Eq, Structural)]
pub struct FilePermissions {
    pub mode: u32,
}

/// The mode of a script that is to be run: `rwxr-xr-x`.
pub const EXECUTABLE_MODE: u32 = 0o755;

/// The permissions that let a script be run: whatever they were, the mode
/// becomes `rwxr-xr-x`.
pub fn set_exec_permission(permissions: FilePermissions) -> (changed: FilePermissions)
    ensures
        changed == (FilePermissions { mode: EXECUTABLE_MODE }),
        changed.mode == 0o755,
{
    let mut changed = permissions;
    changed.mode = EXECUTABLE_MODE;
    changed
}

/// The scripts below `target_path` that have to be made executable before the
/// install pipeline runs.
pub open spec fn install_scripts_of(target_path: Seq<char>) -> Seq<Seq<char>> {
    seq![joined(target_path, "configure"@), joined(target_path, "scripts/install"@)]
}

/// The steps of the install pipeline for the sources in `target_path`:
/// first `configure`, the script of that name in the sources, then
/// `build-install`, which is `make install`.
pub open spec fn install_steps_of(target_path: Seq<char>) -> Seq<StepView> {
    seq![
        StepView {
            name: "configure"@,
            executable: joined(target_path, "configure"@),
            arguments: Seq::empty(),
            working_dir: target_path,
        },
        StepView {
            name: "build-install"@,
            executable: "make"@,
            arguments: seq!["install"@],
            working_dir: target_path,
        },
    ]
}

/// The scripts below `target_path` that have to be made executable before the
/// install pipeline runs.
pub fn install_scripts(target_path: &str) -> (scripts: Vec<String>)
    ensures
        scripts.deep_view() == install_scripts_of(target_path@),
{
    let mut scripts: Vec<String> = Vec::new();
    scripts.push(join_path(target_path, "configure"));
    scripts.push(join_path(target_path, "scripts/install"));
    scripts
}

/// The steps of the install pipeline for the sources in `target_path`.
pub fn install_steps(target_path: &str) -> (steps: Vec<Step>)
    ensures
        steps.deep_view() == install_steps_of(target_path@),
{
    let configure = Step {
        name: "configure".to_owned(),
        executable: join_path(target_path, "configure"),
        arguments: Vec::new(),
        working_dir: target_path.to_owned(),
    };
    let mut arguments: Vec<String> = Vec::new();
    arguments.push("install".to_owned());
    assert(arguments.deep_view() =~= seq!["install"@]);
    assert(configure.arguments.deep_view() =~= Seq::<Seq<char>>::empty());
    let build = Step {
        name: "build-install".to_owned(),
        executable: "make".to_owned(),
        arguments,
        working_dir: target_path.to_owned(),
    };
    let mut steps: Vec<Step> = Vec::new();
    steps.push(configure);
    steps.push(build);
    steps
}

/// Where a pipeline stands: at a step that is to run, or at its end.
pub ghost enum ProgressionView {
    /// The step at `position` is the next to run.
    Next { steps: Seq<StepView>, position: int },
    /// The pipeline has ended with this result.
    Done { result: Result<(), TaskErrorView> },
}

/// What the failure `error` of the step named `step_name` makes of the
/// pipeline: a stop on request stays one, and anything else is the failure of
/// that step, with the error as it was.
pub open spec fn failure_of(step_name: Seq<char>, error: ProcessErrorView) -> TaskErrorView {
    if error is Aborted {
        TaskErrorView::Aborted
    } else {
        TaskErrorView::StepFailed { step_name, detail: error }
    }
}

/// Where a pipeline of `steps` stands before anything has run.
pub open spec fn started(steps: Seq<StepView>) -> ProgressionView {
    if steps.len() == 0 {
        ProgressionView::Done { result: Ok(()) }
    } else {
        ProgressionView::Next { steps, position: 0 }
    }
}

/// Where a pipeline of `steps` stands once the step at `position` has ended
/// in `result`.
pub open spec fn advanced(
    steps: Seq<StepView>,
    position: int,
    result: Result<(), ProcessErrorView>,
) -> ProgressionView {
    match result {
        Ok(()) => if position + 1 < steps.len() {
            ProgressionView::Next { steps, position: position + 1 }
        } else {
            ProgressionView::Done { result: Ok(()) }
        },
        Err(error) => ProgressionView::Done {
            result: Err(failure_of(steps[position].name, error)),
        },
    }
}

/// A pipeline that stands at a step which is to run.
#[derive(Debug)]
pub struct Pipeline {
    steps: Vec<Step>,
    position: usize,
}

/// Where a pipeline stands: at a step that is to run, or at its end.
#[derive(Debug)]
pub enum Progression {
    Next { pipeline: Pipeline },
    Done { result: Result<(), TaskError> },
}

impl View for Progression {
    type V = ProgressionView;

    open spec fn view(&self) -> ProgressionView {
        match self {
            Progression::Next { pipeline } => ProgressionView::Next {
                steps: pipeline.steps(),
                position: pipeline.position(),
            },
            Progression::Done { result } => ProgressionView::Done {
                result: match result {
                    Ok(()) => Ok(()),
                    Err(e) => Err(e@),
                },
            },
        }
    }
}

impl Pipeline {
    #[verifier::type_invariant]
    spec fn at_a_step(self) -> bool {
        self.position < self.steps.len()
    }

    /// The steps of the pipeline.
    pub closed spec fn steps(&self) -> Seq<StepView> {
        self.steps.deep_view()
    }

    /// The index of the step that is to run.
    pub closed spec fn position(&self) -> int {
        self.position as int
    }

    /// A pipeline of `steps` before anything has run. With no steps it has
    /// ended in success already.
    pub fn start(steps: Vec<Step>) -> (progression: Progression)
        ensures
            progression@ == started(steps.deep_view()),
    {
        if steps.len() == 0 {
            Progression::Done { result: Ok(()) }
        } else {
            Progression::Next { pipeline: Pipeline { steps, position: 0 } }
        }
    }

    /// The step that is to run.
    pub fn current(&self) -> (step: &Step)
        ensures
            0 <= self.position() < self.steps().len(),
            step@ == self.steps()[self.position()],
    {
        proof {
            use_type_invariant(self);
        }
        &self.steps[self.position]
    }

    /// Takes in the result of the step that was to run. After a success the
    /// pipeline stands at the next step, or has ended in success if that was
    /// the last. After anything else it has ended, and no further step is
    /// started.
    pub fn advance(self, result: Result<(), ProcessError>) -> (progression: Progression)
        ensures
            progression@ == advanced(self.steps(), self.position(), result_view(result)),
    {
        proof {
            use_type_invariant(&self);
        }
        match result {
            Ok(()) => {
                if self.position + 1 < self.steps.len() {
                    Progression::Next {
                        pipeline: Pipeline { steps: self.steps, position: self.position + 1 },
                    }
                } else {
                    Progression::Done { result: Ok(()) }
                }
            },
            Err(error) => {
                if error.is_abort() {
                    Progression::Done { result: Err(TaskError::Aborted) }
                } else {
                    let step_name = self.steps[self.position].name.clone();
                    Progression::Done {
                        result: Err(TaskError::StepFailed { step_name, detail: error }),
                    }
                }
            },
        }
    }
}

/// The result of a pipeline of `steps` that stands at `position`, when the
/// steps that run from there on end in `results`, in that order. There is
/// none as long as a step that was started has not ended.
pub open spec fn verdict_from(
    steps: Seq<StepView>,
    position: int,
    results: Seq<Result<(), ProcessErrorView>>,
) -> Option<Result<(), TaskErrorView>>
    decreases results.len(),
{
    if position >= steps.len() {
        Some(Ok(()))
    } else if results.len() == 0 {
        None
    } else {
        match advanced(steps, position, results.first()) {
            ProgressionView::Next { steps: _, position: next } => verdict_from(
                steps,
                next,
                results.drop_first(),
            ),
            ProgressionView::Done { result } => Some(result),
        }
    }
}

/// The number of steps that have been started, counted from the first of the
/// pipeline, when the pipeline stands at `position` and the steps that run
/// from there on end in `results`.
pub open spec fn started_from(
    steps: Seq<StepView>,
    position: int,
    results: Seq<Result<(), ProcessErrorView>>,
) -> int
    decreases results.len(),
{
    if position >= steps.len() {
        position
    } else if results.len() == 0 {
        position + 1
    } else {
        match advanced(steps, position, results.first()) {
            ProgressionView::Next { steps: _, position: next } => started_from(
                steps,
                next,
                results.drop_first(),
            ),
            ProgressionView::Done { result } => position + 1,
        }
    }
}

/// The result of a pipeline of `steps` whose steps end in `results`.
pub open spec fn verdict(steps: Seq<StepView>, results: Seq<Result<(), ProcessErrorView>>) -> Option<
    Result<(), TaskErrorView>,
> {
    verdict_from(steps, 0, results)
}

/// The number of steps of a pipeline of `steps` that are started when its
/// steps end in `results`.
pub open spec fn steps_started(
    steps: Seq<StepView>,
    results: Seq<Result<(), ProcessErrorView>>,
) -> int {
    started_from(steps, 0, results)
}

/// From any step on, a pipeline whose remaining steps have all ended has a
/// result, which is success if and only if all of them ended in success.
proof fn lemma_success_from(
    steps: Seq<StepView>,
    position: int,
    results: Seq<Result<(), ProcessErrorView>>,
)
    requires
        0 <= position <= steps.len(),
        results.len() >= steps.len() - position,
    ensures
        verdict_from(steps, position, results) is Some,
        verdict_from(steps, position, results) == Some(Ok::<(), TaskErrorView>(())) <==> (forall|
            i: int,
        |
            0 <= i < steps.len() - position ==> (#[trigger] results[i]) is Ok),
    decreases results.len(),
{
    if position + 1 < steps.len() && results.first() is Ok {
        let rest = results.drop_first();
        lemma_success_from(steps, position + 1, rest);
        assert(forall|i: int| 0 <= i < rest.len() ==> rest[i] == results[i + 1]);
        if forall|j: int| 0 <= j < steps.len() - (position + 1) ==> (#[trigger] rest[j]) is Ok {
            assert forall|i: int| 0 <= i < steps.len() - position implies (
            #[trigger] results[i]) is Ok by {
                if i > 0 {
                    assert(rest[i - 1] == results[i]);
                }
            }
        }
    }
}

/// From any step on, the first step that does not end in success ends the
/// pipeline with its failure, and is the last that was started.
proof fn lemma_failure_from(
    steps: Seq<StepView>,
    position: int,
    results: Seq<Result<(), ProcessErrorView>>,
    k: int,
)
    requires
        0 <= position,
        0 <= k < results.len(),
        position + k < steps.len(),
        results[k] is Err,
        forall|i: int| 0 <= i < k ==> (#[trigger] results[i]) is Ok,
    ensures
        started_from(steps, position, results) == position + k + 1,
        verdict_from(steps, position, results) == Some(
            Err::<(), TaskErrorView>(failure_of(steps[position + k].name, results[k]->Err_0)),
        ),
    decreases results.len(),
{
    if k > 0 {
        let rest = results.drop_first();
        assert(forall|i: int| 0 <= i < rest.len() ==> rest[i] == results[i + 1]);
        lemma_failure_from(steps, position + 1, rest, k - 1);
    }
}

/// A pipeline all of whose steps have ended has a result, and that result is
/// success if and only if every one of its steps ended in success.
pub proof fn law_success_needs_every_step(
    steps: Seq<StepView>,
    results: Seq<Result<(), ProcessErrorView>>,
)
    requires
        results.len() >= steps.len(),
    ensures
        verdict(steps, results) is Some,
        verdict(steps, results) == Some(Ok::<(), TaskErrorView>(())) <==> (forall|i: int|
            0 <= i < steps.len() ==> (#[trigger] results[i]) is Ok),
{
    lemma_success_from(steps, 0, results);
}

/// The first step that does not end in success ends the pipeline with its
/// failure, and no step after it is started, whatever would have become of
/// those.
pub proof fn law_failure_stops_the_pipeline(
    steps: Seq<StepView>,
    results: Seq<Result<(), ProcessErrorView>>,
    k: int,
)
    requires
        0 <= k < steps.len(),
        k < results.len(),
        results[k] is Err,
        forall|i: int| 0 <= i < k ==> (#[trigger] results[i]) is Ok,
    ensures
        steps_started(steps, results) == k + 1,
        verdict(steps, results) == Some(
            Err::<(), TaskErrorView>(failure_of(steps[k].name, results[k]->Err_0)),
        ),
{
    lemma_failure_from(steps, 0, results, k);
}

} // verus!
