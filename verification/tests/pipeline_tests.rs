use cmus_installer::pipeline::{
    install_scripts, install_steps, set_exec_permission, FilePermissions, Pipeline, Progression,
    Step, EXECUTABLE_MODE,
};
use cmus_installer::process::ProcessError;
use cmus_installer::supervisor::TaskError;

fn step(name: &str) -> Step {
    Step {
        name: name.to_string(),
        executable: format!("/bin/{}", name),
        arguments: Vec::new(),
        working_dir: "/".to_string(),
    }
}

fn begun(steps: Vec<Step>) -> Pipeline {
    match Pipeline::start(steps) {
        Progression::Next { pipeline } => pipeline,
        Progression::Done { .. } => panic!("a pipeline with steps has a step to run"),
    }
}

fn ended(progression: Progression) -> Result<(), TaskError> {
    match progression {
        Progression::Done { result } => result,
        Progression::Next { .. } => panic!("the pipeline has not ended"),
    }
}

#[test]
fn install_steps_are_configure_then_build_install() {
    let steps = install_steps("/home/u/cmus-v2.10.0");
    assert_eq!(
        steps,
        vec![
            Step {
                name: "configure".to_string(),
                executable: "/home/u/cmus-v2.10.0/configure".to_string(),
                arguments: vec![],
                working_dir: "/home/u/cmus-v2.10.0".to_string(),
            },
            Step {
                name: "build-install".to_string(),
                executable: "make".to_string(),
                arguments: vec!["install".to_string()],
                working_dir: "/home/u/cmus-v2.10.0".to_string(),
            },
        ]
    );
}

#[test]
fn install_steps_join_without_doubling_the_separator() {
    assert_eq!(install_steps("/srv/src/")[0].executable, "/srv/src/configure");
    assert_eq!(install_steps("")[0].executable, "configure");
    assert_eq!(install_steps("rel")[0].executable, "rel/configure");
}

#[test]
fn install_scripts_are_configure_and_install() {
    assert_eq!(
        install_scripts("/home/u/cmus"),
        vec!["/home/u/cmus/configure".to_string(), "/home/u/cmus/scripts/install".to_string()]
    );
}

#[test]
fn exec_permission_is_rwxr_xr_x() {
    assert_eq!(EXECUTABLE_MODE, 0o755);
    assert_eq!(set_exec_permission(FilePermissions { mode: 0o644 }).mode, 0o755);
    assert_eq!(set_exec_permission(FilePermissions { mode: 0o100600 }).mode, 0o755);
    assert_eq!(set_exec_permission(FilePermissions { mode: 0 }).mode, 0o755);
}

#[test]
fn pipeline_without_steps_has_succeeded() {
    assert_eq!(ended(Pipeline::start(Vec::new())), Ok(()));
}

#[test]
fn pipeline_starts_at_its_first_step() {
    let pipeline = begun(vec![step("a"), step("b")]);
    assert_eq!(pipeline.current().name, "a");
}

#[test]
fn success_of_every_step_is_success_of_the_pipeline() {
    let pipeline = begun(install_steps("/t"));
    assert_eq!(pipeline.current().name, "configure");
    let pipeline = match pipeline.advance(Ok(())) {
        Progression::Next { pipeline } => pipeline,
        Progression::Done { .. } => panic!("the build step is still to run"),
    };
    assert_eq!(pipeline.current().name, "build-install");
    assert_eq!(pipeline.current().executable, "make");
    assert_eq!(ended(pipeline.advance(Ok(()))), Ok(()));
}

#[test]
fn failed_configure_is_reported_and_build_never_starts() {
    let pipeline = begun(install_steps("/t"));
    let progression = pipeline.advance(Err(ProcessError::NonZeroExit { code: Some(1) }));
    assert!(matches!(progression, Progression::Done { .. }));
    assert_eq!(
        ended(progression),
        Err(TaskError::StepFailed {
            step_name: "configure".to_string(),
            detail: ProcessError::NonZeroExit { code: Some(1) },
        })
    );
}

#[test]
fn failed_last_step_fails_the_pipeline() {
    let pipeline = begun(install_steps("/t"));
    let pipeline = match pipeline.advance(Ok(())) {
        Progression::Next { pipeline } => pipeline,
        Progression::Done { .. } => panic!("the build step is still to run"),
    };
    assert_eq!(
        ended(pipeline.advance(Err(ProcessError::NonZeroExit { code: Some(2) }))),
        Err(TaskError::StepFailed {
            step_name: "build-install".to_string(),
            detail: ProcessError::NonZeroExit { code: Some(2) },
        })
    );
}

#[test]
fn spawn_failure_fails_the_step_with_its_reason() {
    let pipeline = begun(vec![step("only")]);
    assert_eq!(
        ended(pipeline.advance(Err(ProcessError::SpawnFailed { reason: "not found".to_string() }))),
        Err(TaskError::StepFailed {
            step_name: "only".to_string(),
            detail: ProcessError::SpawnFailed { reason: "not found".to_string() },
        })
    );
}

#[test]
fn wait_failure_fails_the_step_with_its_detail() {
    let pipeline = begun(vec![step("only"), step("next")]);
    assert_eq!(
        ended(pipeline.advance(Err(ProcessError::WaitFailed { detail: "EINTR".to_string() }))),
        Err(TaskError::StepFailed {
            step_name: "only".to_string(),
            detail: ProcessError::WaitFailed { detail: "EINTR".to_string() },
        })
    );
}

#[test]
fn aborted_step_aborts_the_pipeline() {
    let pipeline = begun(install_steps("/t"));
    let result = ended(pipeline.advance(Err(ProcessError::Aborted)));
    assert_eq!(result, Err(TaskError::Aborted));
    assert!(result.unwrap_err().is_abort());
}

#[test]
fn three_steps_run_in_order() {
    let mut pipeline = begun(vec![step("a"), step("b"), step("c")]);
    let mut ran: Vec<String> = Vec::new();
    let result = loop {
        ran.push(pipeline.current().name.clone());
        match pipeline.advance(Ok(())) {
            Progression::Next { pipeline: next } => pipeline = next,
            Progression::Done { result } => break result,
        }
    };
    assert_eq!(result, Ok(()));
    assert_eq!(ran, vec!["a", "b", "c"]);
}

#[test]
fn failure_in_the_middle_stops_before_the_rest() {
    let mut pipeline = begun(vec![step("a"), step("b"), step("c")]);
    let mut ran: Vec<String> = Vec::new();
    let result = loop {
        let name = pipeline.current().name.clone();
        ran.push(name.clone());
        let outcome = if name == "b" {
            Err(ProcessError::NonZeroExit { code: Some(77) })
        } else {
            Ok(())
        };
        match pipeline.advance(outcome) {
            Progression::Next { pipeline: next } => pipeline = next,
            Progression::Done { result } => break result,
        }
    };
    assert_eq!(ran, vec!["a", "b"]);
    assert_eq!(
        result,
        Err(TaskError::StepFailed {
            step_name: "b".to_string(),
            detail: ProcessError::NonZeroExit { code: Some(77) },
        })
    );
}
