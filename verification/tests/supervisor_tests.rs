use cmus_installer::pipeline::{install_steps, Pipeline, Progression};
use cmus_installer::process::{multiplex, ProcessError, Ready, Source};
use cmus_installer::supervisor::{summary, TaskError, TaskKind, TaskState, TaskSupervisor};

#[test]
fn new_supervisor_is_idle() {
    let supervisor = TaskSupervisor::new();
    assert_eq!(supervisor.state(), TaskState::Idle);
    assert!(!supervisor.is_abort_state());
}

#[test]
fn idle_supervisor_accepts_a_task() {
    let mut supervisor = TaskSupervisor::new();
    assert_eq!(supervisor.accept(), Ok(()));
    assert_eq!(supervisor.state(), TaskState::Running);
}

#[test]
fn running_supervisor_refuses_a_second_task() {
    let mut supervisor = TaskSupervisor::new();
    supervisor.accept().unwrap();
    assert_eq!(supervisor.accept(), Err(TaskError::AlreadyRunning));
    assert_eq!(supervisor.state(), TaskState::Running);
}

#[test]
fn aborting_supervisor_refuses_a_task() {
    let mut supervisor = TaskSupervisor::new();
    supervisor.accept().unwrap();
    supervisor.request_abort();
    assert_eq!(supervisor.accept(), Err(TaskError::AlreadyRunning));
    assert_eq!(supervisor.state(), TaskState::AbortRequested);
}

#[test]
fn abort_request_without_task_has_no_effect() {
    let mut supervisor = TaskSupervisor::new();
    supervisor.request_abort();
    assert_eq!(supervisor.state(), TaskState::Idle);
    assert!(!supervisor.is_abort_state());
    assert_eq!(supervisor.accept(), Ok(()));
    assert_eq!(supervisor.state(), TaskState::Running);
    assert!(!supervisor.is_abort_state());
}

#[test]
fn abort_request_reaches_a_running_task() {
    let mut supervisor = TaskSupervisor::new();
    supervisor.accept().unwrap();
    assert!(!supervisor.is_abort_state());
    supervisor.request_abort();
    assert_eq!(supervisor.state(), TaskState::AbortRequested);
    assert!(supervisor.is_abort_state());
    supervisor.request_abort();
    assert_eq!(supervisor.state(), TaskState::AbortRequested);
}

#[test]
fn release_makes_the_state_idle_from_any_state() {
    let mut supervisor = TaskSupervisor::new();
    supervisor.release();
    assert_eq!(supervisor.state(), TaskState::Idle);
    supervisor.accept().unwrap();
    supervisor.release();
    assert_eq!(supervisor.state(), TaskState::Idle);
    supervisor.accept().unwrap();
    supervisor.request_abort();
    supervisor.release();
    assert_eq!(supervisor.state(), TaskState::Idle);
    assert!(!supervisor.is_abort_state());
    assert_eq!(supervisor.accept(), Ok(()));
}

#[test]
fn summaries_name_the_task() {
    assert_eq!(summary(TaskKind::Download), "Download finished successfully");
    assert_eq!(summary(TaskKind::Decompress), "Decompression successful");
    assert_eq!(summary(TaskKind::Install), "Installation successful");
}

#[test]
fn conclude_answers_success_with_the_summary() {
    let mut supervisor = TaskSupervisor::new();
    supervisor.accept().unwrap();
    assert_eq!(
        supervisor.conclude(TaskKind::Install, Ok(())),
        Ok("Installation successful".to_string())
    );
    assert_eq!(supervisor.state(), TaskState::Idle);
}

#[test]
fn conclude_hands_on_the_error_and_resets() {
    let mut supervisor = TaskSupervisor::new();
    supervisor.accept().unwrap();
    let failure = TaskError::StepFailed {
        step_name: "configure".to_string(),
        detail: ProcessError::NonZeroExit { code: Some(1) },
    };
    assert_eq!(
        supervisor.conclude(TaskKind::Install, Err(failure)),
        Err(TaskError::StepFailed {
            step_name: "configure".to_string(),
            detail: ProcessError::NonZeroExit { code: Some(1) },
        })
    );
    assert_eq!(supervisor.state(), TaskState::Idle);
}

#[test]
fn only_aborted_is_an_abort() {
    assert!(TaskError::Aborted.is_abort());
    assert!(!TaskError::AlreadyRunning.is_abort());
    assert!(!TaskError::StepFailed {
        step_name: String::new(),
        detail: ProcessError::NonZeroExit { code: Some(1) },
    }
    .is_abort());
    assert!(!TaskError::ExtractionFailed { reason: String::new() }.is_abort());
    assert!(!TaskError::SetupFailed { path: String::new(), reason: String::new() }.is_abort());
}

#[test]
fn install_with_failing_configure_reports_the_step() {
    let mut supervisor = TaskSupervisor::new();
    supervisor.accept().unwrap();
    let mut spawned: Vec<String> = Vec::new();
    let mut progression = Pipeline::start(install_steps("/work/cmus"));
    let outcome = loop {
        match progression {
            Progression::Done { result } => break result,
            Progression::Next { pipeline } => {
                spawned.push(pipeline.current().executable.clone());
                let events = multiplex(&vec![
                    Ready::Line { source: Source::Stderr, text: "error: no compiler\n".to_string() },
                    Ready::Exited { code: Some(1) },
                ]);
                let result = events.last().unwrap().clone().outcome().unwrap();
                progression = pipeline.advance(result);
            }
        }
    };
    let answer = supervisor.conclude(TaskKind::Install, outcome);
    assert_eq!(
        answer,
        Err(TaskError::StepFailed {
            step_name: "configure".to_string(),
            detail: ProcessError::NonZeroExit { code: Some(1) },
        })
    );
    assert_eq!(spawned, vec!["/work/cmus/configure"]);
    assert_eq!(supervisor.state(), TaskState::Idle);
}

#[test]
fn abort_during_build_ends_aborted_and_idle() {
    let mut supervisor = TaskSupervisor::new();
    supervisor.accept().unwrap();
    let pipeline = match Pipeline::start(install_steps("/work/cmus")) {
        Progression::Next { pipeline } => pipeline,
        Progression::Done { .. } => panic!("the pipeline has steps"),
    };
    let pipeline = match pipeline.advance(Ok(())) {
        Progression::Next { pipeline } => pipeline,
        Progression::Done { .. } => panic!("the build step is still to run"),
    };
    assert_eq!(pipeline.current().name, "build-install");

    let mut events = Vec::new();
    let mut killed = false;
    let mut outcome = None;
    let mut elapsed_ms = 0u64;
    while outcome.is_none() {
        elapsed_ms += 100;
        if elapsed_ms == 200 {
            supervisor.request_abort();
        }
        let tick = Ready::PollTick { abort_requested: supervisor.is_abort_state() };
        if let Some(event) = cmus_installer::process::on_ready(&tick) {
            killed = event.calls_for_kill();
            events.push(event.clone());
            outcome = event.outcome();
        }
    }
    assert_eq!(elapsed_ms, 200);
    assert!(killed);
    assert_eq!(outcome, Some(Err(ProcessError::Aborted)));

    let result = match pipeline.advance(outcome.unwrap()) {
        Progression::Done { result } => result,
        Progression::Next { .. } => panic!("an aborted pipeline has ended"),
    };
    assert_eq!(result, Err(TaskError::Aborted));
    let answer = supervisor.conclude(TaskKind::Install, result);
    assert_eq!(answer, Err(TaskError::Aborted));
    assert_eq!(supervisor.state(), TaskState::Idle);
}

#[test]
fn conclude_hands_on_every_kind_of_error() {
    let mut supervisor = TaskSupervisor::new();
    supervisor.accept().unwrap();
    assert_eq!(
        supervisor.conclude(
            TaskKind::Decompress,
            Err(TaskError::ExtractionFailed { reason: "InvalidArchive".to_string() })
        ),
        Err(TaskError::ExtractionFailed { reason: "InvalidArchive".to_string() })
    );
    supervisor.accept().unwrap();
    assert_eq!(
        supervisor.conclude(
            TaskKind::Install,
            Err(TaskError::SetupFailed {
                path: "/t/configure".to_string(),
                reason: "No such file or directory".to_string(),
            })
        ),
        Err(TaskError::SetupFailed {
            path: "/t/configure".to_string(),
            reason: "No such file or directory".to_string(),
        })
    );
    supervisor.accept().unwrap();
    let cause = cmus_installer::transfer::TransferError::WriteFailed {
        target: "/t".to_string(),
        detail: "disk full".to_string(),
    };
    let answer = supervisor.conclude(TaskKind::Download, Err(TaskError::TransferFailed { cause }));
    match answer {
        Err(TaskError::TransferFailed { cause }) => {
            assert_eq!(cause.message(), "Failed to write file `/t`")
        }
        _ => panic!("the failure of the transfer is handed on"),
    }
    assert_eq!(supervisor.state(), TaskState::Idle);
    assert_eq!(
        supervisor.conclude(TaskKind::Download, Ok(())),
        Ok("Download finished successfully".to_string())
    );
}

#[test]
fn default_supervisor_is_idle() {
    let supervisor = TaskSupervisor::default();
    assert_eq!(supervisor.state(), TaskState::Idle);
}
