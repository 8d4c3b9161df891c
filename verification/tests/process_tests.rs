use scheme_sys::error::{Error, EACCES, ENOENT};
use scheme_sys::process::{
    resolve_image_path, spawn_failure_status, Command, ExitStatus, SetupStep, SpawnOutcome, Stdio,
};

#[test]
fn exit_status_success_is_zero() {
    assert!(ExitStatus::from_raw(0).success());
    assert!(!ExitStatus::from_raw(1).success());
    assert_eq!(ExitStatus::from_raw(42).code(), Some(42));
}

#[test]
fn resolve_keeps_qualified_paths_verbatim() {
    assert_eq!(resolve_image_path(b"/bin/echo", &None), b"/bin/echo".to_vec());
    assert_eq!(resolve_image_path(b"file:bin/echo", &None), b"file:bin/echo".to_vec());
    assert_eq!(
        resolve_image_path(b"/bin/echo", &Some(b"file:/bin".to_vec())),
        b"/bin/echo".to_vec()
    );
}

#[test]
fn resolve_qualifies_bare_names_against_path_value() {
    assert_eq!(
        resolve_image_path(b"echo", &Some(b"file:bin".to_vec())),
        b"file:bin/echo".to_vec()
    );
    assert_eq!(
        resolve_image_path(b"echo", &Some(b"file:bin/".to_vec())),
        b"file:bin/echo".to_vec()
    );
    assert_eq!(resolve_image_path(b"echo", &None), b"./echo".to_vec());
    assert_eq!(resolve_image_path(b"echo", &Some(b"".to_vec())), b"./echo".to_vec());
}

#[test]
fn setup_plan_for_piped_stdout_moves_the_write_end() {
    let mut cmd = Command::new(b"/bin/echo");
    cmd.arg(b"hi");
    cmd.stdout(Stdio::piped(3, 4));
    let plan = cmd.setup_plan(&None);
    // stderr inherited: nothing; stdout piped: four steps; stdin inherited:
    // nothing; then exec.
    assert_eq!(plan.len(), 5);
    assert!(matches!(plan[0], SetupStep::Close(3)));
    assert!(matches!(plan[1], SetupStep::Close(1)));
    assert!(matches!(plan[2], SetupStep::Dup(4)));
    assert!(matches!(plan[3], SetupStep::Close(4)));
    match &plan[4] {
        SetupStep::Exec(path, argv) => {
            assert_eq!(path, &b"/bin/echo".to_vec());
            assert_eq!(argv.len(), 2);
            assert_eq!(argv[0], b"/bin/echo".to_vec());
            assert_eq!(argv[1], b"hi".to_vec());
        },
        _ => panic!("last step must load the image"),
    }
}

#[test]
fn setup_plan_orders_streams_credentials_directory_environment_exec() {
    let mut cmd = Command::new(b"daemon");
    cmd.stdin(Stdio::null());
    cmd.stderr(Stdio::raw(9));
    cmd.uid(100);
    cmd.gid(200);
    cmd.current_dir(b"file:/var");
    cmd.env(b"KEY", b"VALUE");
    let plan = cmd.setup_plan(&Some(b"file:/bin".to_vec()));
    // stderr raw: close slot 2, dup 9, close 9; stdout inherited; stdin
    // null: close slot 0; then gid before uid, directory, override, exec.
    assert!(matches!(plan[0], SetupStep::Close(2)));
    assert!(matches!(plan[1], SetupStep::Dup(9)));
    assert!(matches!(plan[2], SetupStep::Close(9)));
    assert!(matches!(plan[3], SetupStep::Close(0)));
    assert!(matches!(plan[4], SetupStep::SetGid(200)));
    assert!(matches!(plan[5], SetupStep::SetUid(100)));
    match &plan[6] {
        SetupStep::Chdir(d) => assert_eq!(d, &b"file:/var".to_vec()),
        _ => panic!("directory change must follow credentials"),
    }
    match &plan[7] {
        SetupStep::SetEnv(k, v) => {
            assert_eq!(k, &b"KEY".to_vec());
            assert_eq!(v, &b"VALUE".to_vec());
        },
        _ => panic!("environment overrides must follow the directory change"),
    }
    match &plan[8] {
        SetupStep::Exec(path, argv) => {
            assert_eq!(path, &b"file:/bin/daemon".to_vec());
            assert_eq!(argv.len(), 1);
        },
        _ => panic!("exec must come last"),
    }
    assert_eq!(plan.len(), 9);
}

#[test]
fn env_override_keeps_keys_unique_and_replaces_in_place() {
    let mut cmd = Command::new(b"p");
    cmd.env(b"A", b"1");
    cmd.env(b"B", b"2");
    cmd.env(b"A", b"3");
    let plan = cmd.setup_plan(&None);
    let envs: Vec<(&Vec<u8>, &Vec<u8>)> = plan
        .iter()
        .filter_map(|s| match s {
            SetupStep::SetEnv(k, v) => Some((k, v)),
            _ => None,
        })
        .collect();
    assert_eq!(envs.len(), 2);
    assert_eq!(envs[0].0, &b"A".to_vec());
    assert_eq!(envs[0].1, &b"3".to_vec());
    assert_eq!(envs[1].0, &b"B".to_vec());
    assert_eq!(envs[1].1, &b"2".to_vec());
}

#[test]
fn early_exit_with_encoded_errno_is_a_setup_failure_not_a_child() {
    let mut cmd = Command::new(b"p");
    cmd.stdin(Stdio::piped(5, 6));
    cmd.stdout(Stdio::piped(7, 8));
    let status = spawn_failure_status(ENOENT);
    match cmd.poll_spawn(4321, status) {
        SpawnOutcome::Failed { error, close_fds } => {
            assert_eq!(error, Error::SpawnSetupFailed(ENOENT));
            // stdin both ends, then stdout write end first.
            assert_eq!(close_fds, vec![5, 6, 8, 7]);
        },
        SpawnOutcome::Spawned { .. } => panic!("an encoded errno must never yield a child"),
    }
}

#[test]
fn failure_status_encodes_the_errno_band() {
    // The child's failure exit status is the two's-complement negation of
    // the errno; a decoder that passed the status through unchanged would
    // report a healthy child instead.
    assert_eq!(spawn_failure_status(EACCES), usize::MAX - (EACCES as usize) + 1);
}

#[test]
fn live_child_keeps_exactly_one_end_of_each_pipe() {
    let mut cmd = Command::new(b"p");
    cmd.stdin(Stdio::piped(5, 6));
    cmd.stdout(Stdio::piped(7, 8));
    cmd.stderr(Stdio::raw(11));
    match cmd.poll_spawn(4321, 0) {
        SpawnOutcome::Spawned { child, close_fds } => {
            assert_eq!(child.id(), 4321);
            // Parent keeps the write end of stdin and the read end of
            // stdout; it closes the opposite ends and the raw descriptor.
            assert_eq!(child.stdin.as_ref().map(|s| s.fd()), Some(6));
            assert_eq!(child.stdout.as_ref().map(|s| s.fd()), Some(7));
            assert!(child.stderr.is_none());
            assert_eq!(close_fds, vec![5, 8, 11]);
        },
        SpawnOutcome::Failed { .. } => panic!("status zero means the child runs"),
    }
}

#[test]
fn pipe_ends_never_stay_on_both_sides() {
    // For stdout piped as (read 7, write 8): the parent keeps 7 and closes
    // 8; the child's plan closes 7, duplicates 8 onto the slot and closes 8.
    let mut cmd = Command::new(b"p");
    cmd.stdout(Stdio::piped(7, 8));
    let plan = cmd.setup_plan(&None);
    let closes: Vec<usize> = plan
        .iter()
        .filter_map(|s| match s {
            SetupStep::Close(fd) => Some(*fd),
            _ => None,
        })
        .collect();
    assert!(closes.contains(&7));
    assert!(closes.contains(&8));
    assert!(plan.iter().any(|s| matches!(s, SetupStep::Dup(8))));
    match cmd.poll_spawn(1, 0) {
        SpawnOutcome::Spawned { child, close_fds } => {
            assert_eq!(child.stdout.as_ref().map(|s| s.fd()), Some(7));
            assert_eq!(close_fds, vec![8]);
        },
        SpawnOutcome::Failed { .. } => panic!("status zero means the child runs"),
    }
}

#[test]
fn piped_or_null_falls_back_when_the_pipe_failed() {
    let mut cmd = Command::new(b"p");
    cmd.stdout(Stdio::piped_or_null(Err(ENOENT)));
    let plan = cmd.setup_plan(&None);
    // A failed pipe becomes Null: the child only closes the slot.
    assert!(matches!(plan[0], SetupStep::Close(1)));
    let mut cmd = Command::new(b"p");
    cmd.stdout(Stdio::piped_or_null(Ok((3, 4))));
    let plan = cmd.setup_plan(&None);
    assert!(matches!(plan[0], SetupStep::Close(3)));
}

#[test]
fn only_the_low_status_bits_decide_failure() {
    let cmd = Command::new(b"p");
    // A status outside the errno band is a running child, however large.
    match cmd.poll_spawn(1, 70000) {
        SpawnOutcome::Spawned { .. } => {},
        SpawnOutcome::Failed { .. } => panic!("a plain status must not decode as an errno"),
    }
    // The decoder reads the status as a 32-bit value: a status whose low
    // half lands in the errno band is a failure even with zero high bits.
    if usize::BITS == 64 {
        match cmd.poll_spawn(1, 0xFFFF_FFF3usize) {
            SpawnOutcome::Failed { error, .. } => {
                assert_eq!(error, Error::SpawnSetupFailed(13));
            },
            SpawnOutcome::Spawned { .. } => {
                panic!("an errno in the low half must decode as a failure")
            },
        }
    }
}
