use tug::executor::{
    apply_instruction, build_step, command_outcome, path_join, BuildEffect, BuildError, BuildState,
};
use tug::instruction::Instruction;
use tug::request::build_request;

#[test]
fn run_before_from_image_is_a_reported_no_op() {
    let mut state = BuildState::new();
    let effect = apply_instruction(
        &mut state,
        &Instruction::Run("echo hi".to_string()),
        "/var/lib/tug",
        "id-0",
    );
    assert_eq!(effect, BuildEffect::ContextMissing);
    assert!(state.context.is_none());

    let effect = apply_instruction(
        &mut state,
        &Instruction::Workdir("/app".to_string()),
        "/var/lib/tug",
        "id-0",
    );
    assert_eq!(effect, BuildEffect::ContextMissing);
    let effect = apply_instruction(
        &mut state,
        &Instruction::Cmd("./run".to_string()),
        "/var/lib/tug",
        "id-0",
    );
    assert_eq!(effect, BuildEffect::ContextMissing);
}

#[test]
fn from_image_creates_the_context() {
    let mut state = BuildState::new();
    let effect = apply_instruction(
        &mut state,
        &Instruction::FromImage("alpine".to_string()),
        "/var/lib/tug",
        "id-1",
    );
    assert_eq!(
        effect,
        BuildEffect::PullImage {
            image: "alpine".to_string(),
            dest: "/var/lib/tug/id-1".to_string(),
        }
    );
    let ctx = state.context.as_ref().unwrap();
    assert_eq!(ctx.rootfs, "/var/lib/tug/id-1");
    assert_eq!(ctx.workdir, "/var/lib/tug/id-1");
}

#[test]
fn workdir_resolves_against_the_current_workdir() {
    let mut state = BuildState::new();
    apply_instruction(
        &mut state,
        &Instruction::FromImage("alpine".to_string()),
        "/var/lib/tug",
        "id-2",
    );
    let effect = apply_instruction(
        &mut state,
        &Instruction::Workdir("other".to_string()),
        "/var/lib/tug",
        "id-2",
    );
    assert_eq!(effect, BuildEffect::MakeWorkdir { path: "/var/lib/tug/id-2/other".to_string() });
    let effect = apply_instruction(
        &mut state,
        &Instruction::Workdir("sub".to_string()),
        "/var/lib/tug",
        "id-2",
    );
    assert_eq!(
        effect,
        BuildEffect::MakeWorkdir { path: "/var/lib/tug/id-2/other/sub".to_string() }
    );
    let ctx = state.context.as_ref().unwrap();
    assert_eq!(ctx.workdir, "/var/lib/tug/id-2/other/sub");
    assert_eq!(ctx.rootfs, "/var/lib/tug/id-2");
}

#[test]
fn run_and_copy_use_the_workdir() {
    let mut state = BuildState::new();
    apply_instruction(
        &mut state,
        &Instruction::FromImage("alpine".to_string()),
        "/var/lib/tug",
        "id-3",
    );
    apply_instruction(&mut state, &Instruction::Workdir("app".to_string()), "/var/lib/tug", "id-3");
    let effect = apply_instruction(
        &mut state,
        &Instruction::Run("make".to_string()),
        "/var/lib/tug",
        "id-3",
    );
    assert_eq!(
        effect,
        BuildEffect::RunCommand {
            command: "make".to_string(),
            cwd: "/var/lib/tug/id-3/app".to_string(),
        }
    );
    let effect = apply_instruction(
        &mut state,
        &Instruction::Copy { src: "a.txt".to_string(), dest: "b.txt".to_string() },
        "/var/lib/tug",
        "id-3",
    );
    assert_eq!(
        effect,
        BuildEffect::CopyFile {
            src: "a.txt".to_string(),
            dest: "/var/lib/tug/id-3/app/b.txt".to_string(),
        }
    );
    let effect = apply_instruction(
        &mut state,
        &Instruction::Add { src: "p.tar".to_string(), dest: "/opt".to_string() },
        "/var/lib/tug",
        "id-3",
    );
    assert_eq!(
        effect,
        BuildEffect::AddFile { src: "p.tar".to_string(), dest: "/opt".to_string() }
    );
}

#[test]
fn metadata_instructions_record_into_the_config() {
    let mut state = BuildState::new();
    apply_instruction(
        &mut state,
        &Instruction::FromImage("alpine".to_string()),
        "/var/lib/tug",
        "id-4",
    );
    assert_eq!(
        apply_instruction(
            &mut state,
            &Instruction::Cmd("./start.sh".to_string()),
            "/var/lib/tug",
            "id-4",
        ),
        BuildEffect::Recorded
    );
    assert_eq!(
        apply_instruction(
            &mut state,
            &Instruction::EntryPoint("/bin/init".to_string()),
            "/var/lib/tug",
            "id-4",
        ),
        BuildEffect::Recorded
    );
    assert_eq!(
        apply_instruction(&mut state, &Instruction::Expose(8080), "/var/lib/tug", "id-4"),
        BuildEffect::Recorded
    );
    assert_eq!(
        apply_instruction(
            &mut state,
            &Instruction::Env { key: "A".to_string(), value: "1".to_string() },
            "/var/lib/tug",
            "id-4",
        ),
        BuildEffect::Recorded
    );
    assert_eq!(state.config.cmd, Some("./start.sh".to_string()));
    assert_eq!(state.config.entrypoint, Some("/bin/init".to_string()));
    assert_eq!(state.config.exposed_ports, vec![8080]);
    assert_eq!(state.config.env_vars, vec![("A".to_string(), "1".to_string())]);
}

#[test]
fn build_step_names_a_fresh_build_directory() {
    let mut state = BuildState::new();
    let effect = build_step(&mut state, &Instruction::FromImage("alpine".to_string()), "/staging");
    let dest1 = match effect {
        BuildEffect::PullImage { image, dest } => {
            assert_eq!(image, "alpine");
            dest
        },
        other => panic!("unexpected effect {:?}", other),
    };
    assert!(dest1.starts_with("/staging/"));
    assert_eq!(dest1.len(), "/staging/".len() + 36);

    let mut state2 = BuildState::new();
    let effect = build_step(&mut state2, &Instruction::FromImage("alpine".to_string()), "/staging");
    let dest2 = match effect {
        BuildEffect::PullImage { dest, .. } => dest,
        other => panic!("unexpected effect {:?}", other),
    };
    assert_ne!(dest1, dest2);
}

#[test]
fn a_second_from_image_restarts_the_context() {
    let mut state = BuildState::new();
    apply_instruction(
        &mut state,
        &Instruction::FromImage("alpine".to_string()),
        "/var/lib/tug",
        "id-5",
    );
    apply_instruction(
        &mut state,
        &Instruction::Workdir("app".to_string()),
        "/var/lib/tug",
        "id-5",
    );
    let effect = apply_instruction(
        &mut state,
        &Instruction::FromImage("ubuntu".to_string()),
        "/var/lib/tug",
        "id-6",
    );
    assert_eq!(
        effect,
        BuildEffect::PullImage {
            image: "ubuntu".to_string(),
            dest: "/var/lib/tug/id-6".to_string(),
        }
    );
    let ctx = state.context.as_ref().unwrap();
    assert_eq!(ctx.rootfs, "/var/lib/tug/id-6");
    assert_eq!(ctx.workdir, "/var/lib/tug/id-6");
}

#[test]
fn command_outcome_propagates_exit_status() {
    assert_eq!(command_outcome(3, 0), Ok(()));
    assert_eq!(
        command_outcome(3, 2),
        Err(BuildError::Command { index: 3, exit_code: 2 })
    );
}

#[test]
fn path_join_handles_absolute_and_relative() {
    assert_eq!(path_join("/base", "rel"), "/base/rel");
    assert_eq!(path_join("/base", "/abs"), "/abs");
    assert_eq!(path_join("/base", ""), "/base/");
}

#[test]
fn build_request_carries_the_instructions() {
    let instructions = vec![Instruction::FromImage("alpine".to_string())];
    let req = build_request(instructions.clone());
    assert_eq!(req.command, "build");
    assert_eq!(req.instructions, Some(instructions));
    assert_eq!(req.image, None);
}
