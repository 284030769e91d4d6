use reason::{
    Backend, BootAction, BootEvent, BootInput, BootMachine, BootPhase, Error, Server,
    ServerGuard, Source, connect_retries, models_endpoint,
};

fn begin(model: &str, backend: Backend) -> (BootMachine, Vec<BootAction>) {
    let mut machine = BootMachine::new(model.to_string(), backend);
    let actions = machine.step(BootInput::Begin);
    (machine, actions)
}

#[test]
fn boot_probes_local_first() {
    let (machine, actions) = begin("/models/m.gguf", Backend::Cpu);
    assert!(matches!(machine.phase, BootPhase::ProbingLocal));
    assert!(matches!(actions[0], BootAction::Notify { event: BootEvent::Progressed { stage: "Detecting executor...", percent: 0 } }));
    assert!(matches!(actions[1], BootAction::ProbeLocal));
    assert_eq!(actions.len(), 2);
}

#[test]
fn boot_local_success_spawns_with_expected_args() {
    let (mut machine, _) = begin("/models/m.gguf", Backend::Cuda);
    let actions = machine.step(BootInput::LocalProbed {
        version_lines: Some(vec!["version 1".to_string()]),
    });
    assert!(matches!(machine.phase, BootPhase::SpawningLocal));
    let spawn_args: Vec<Vec<String>> = actions
        .iter()
        .filter_map(|a| match a {
            BootAction::SpawnLocal { args } => Some(args.clone()),
            _ => None,
        })
        .collect();
    assert_eq!(
        spawn_args,
        vec![vec![
            "--jinja".to_string(),
            "--model".to_string(),
            "/models/m.gguf".to_string(),
            "--port".to_string(),
            "8080".to_string(),
            "--host".to_string(),
            "127.0.0.1".to_string(),
            "--gpu-layers".to_string(),
            "80".to_string(),
        ]]
    );
    let logged: Vec<String> = actions
        .iter()
        .filter_map(|a| match a {
            BootAction::Notify { event: BootEvent::Logged(line) } => Some(line.clone()),
            _ => None,
        })
        .collect();
    assert_eq!(
        logged,
        vec![
            "Local llama-server binary found!".to_string(),
            "version 1".to_string(),
            "Launching m with local llama-server...".to_string(),
        ]
    );
}

#[test]
fn boot_cpu_spawn_has_no_gpu_layers() {
    let (mut machine, _) = begin("m.gguf", Backend::Cpu);
    let actions = machine.step(BootInput::LocalProbed { version_lines: Some(vec![]) });
    let args = actions
        .iter()
        .find_map(|a| match a {
            BootAction::SpawnLocal { args } => Some(args.clone()),
            _ => None,
        })
        .unwrap();
    assert!(!args.contains(&"--gpu-layers".to_string()));
}

#[test]
fn boot_falls_back_to_container() {
    let (mut machine, _) = begin("/models/m.gguf", Backend::Cpu);
    let actions = machine.step(BootInput::LocalProbed { version_lines: None });
    assert!(matches!(machine.phase, BootPhase::ProbingContainer));
    assert!(matches!(actions[..], [BootAction::ProbeContainer]));
    let actions = machine.step(BootInput::ContainerProbed { found: true });
    assert!(matches!(machine.phase, BootPhase::ReadingContainerId));
    // No local spawn was ever requested on this path.
    assert!(actions.iter().all(|a| !matches!(a, BootAction::SpawnLocal { .. })));
    machine.step(BootInput::ContainerIdRead { result: Ok(Some("abc123".to_string())) });
    machine.step(BootInput::CreateFinished { result: Ok(true) });
    machine.step(BootInput::ContainerStarted { result: Ok(()) });
    machine.step(BootInput::LogsAttached { result: Ok(()) });
    let actions = machine.step(BootInput::HealthChecked { healthy: true });
    assert!(matches!(actions[..], [BootAction::StopLogs]));
    match &machine.phase {
        BootPhase::Resolved { reason } => {
            assert_eq!(reason.name(), "m");
            match reason.server() {
                Server::Container { id, model } => {
                    assert_eq!(id, "abc123");
                    assert_eq!(model, "/models/m.gguf");
                }
                other => panic!("expected a container executor, got {other:?}"),
            }
        }
        other => panic!("expected a resolved boot, got {other:?}"),
    }
}

#[test]
fn boot_fails_when_both_probes_fail() {
    let (mut machine, _) = begin("/models/m.gguf", Backend::Cpu);
    let a1 = machine.step(BootInput::LocalProbed { version_lines: None });
    let a2 = machine.step(BootInput::ContainerProbed { found: false });
    assert!(matches!(
        machine.phase,
        BootPhase::Failed { error: Error::NoExecutorAvailable }
    ));
    let launches = a1
        .iter()
        .chain(a2.iter())
        .filter(|a| {
            matches!(
                a,
                BootAction::SpawnLocal { .. }
                    | BootAction::CreateContainer { .. }
                    | BootAction::StartContainer { .. }
                    | BootAction::FollowLogs { .. }
            )
        })
        .count();
    assert_eq!(launches, 0);
}

#[test]
fn boot_container_create_args_per_backend() {
    let (mut machine, _) = begin("/models/llama-3.gguf", Backend::Rocm);
    machine.step(BootInput::LocalProbed { version_lines: None });
    let actions = machine.step(BootInput::ContainerProbed { found: true });
    let args = actions
        .iter()
        .find_map(|a| match a {
            BootAction::CreateContainer { args } => Some(args.clone()),
            _ => None,
        })
        .unwrap();
    assert_eq!(
        args,
        vec![
            "create",
            "--rm",
            "-p",
            "8080:80",
            "-v",
            "/models:/models",
            "--device=/dev/kfd",
            "--device=/dev/dri",
            "--security-opt",
            "seccomp=unconfined",
            "--group-add",
            "video",
            "ghcr.io/hecrj/icebreaker:server-rocm-b4600",
            "--model",
            "/models/llama-3",
            "--port",
            "80",
            "--host",
            "0.0.0.0",
            "--gpu-layers",
            "40",
        ]
        .into_iter()
        .map(str::to_string)
        .collect::<Vec<String>>()
    );
}

#[test]
fn boot_cuda_container_requests_all_gpus() {
    let args = reason::container_args("weights/m.gguf", Backend::Cuda);
    assert_eq!(args[2], "--gpus");
    assert_eq!(args[3], "all");
    assert!(args.contains(&"ghcr.io/ggerganov/llama.cpp:server-cuda-b4600".to_string()));
    assert!(args.contains(&"weights:/models".to_string()));
    assert!(args.contains(&"--jinja".to_string()));
}

#[test]
fn boot_cpu_container_is_plain() {
    let args = reason::container_args("m.gguf", Backend::Cpu);
    assert!(args.contains(&"ghcr.io/ggerganov/llama.cpp:server-b4600".to_string()));
    assert!(args.contains(&".:/models".to_string()));
    assert!(!args.contains(&"--gpu-layers".to_string()));
}

#[test]
fn boot_missing_container_id_is_fatal() {
    let (mut machine, _) = begin("m.gguf", Backend::Cpu);
    machine.step(BootInput::LocalProbed { version_lines: None });
    machine.step(BootInput::ContainerProbed { found: true });
    machine.step(BootInput::ContainerIdRead { result: Ok(None) });
    assert!(matches!(
        machine.phase,
        BootPhase::Failed { error: Error::DockerFailed("no container id returned by docker") }
    ));
}

#[test]
fn boot_failed_create_is_fatal() {
    let (mut machine, _) = begin("m.gguf", Backend::Cpu);
    machine.step(BootInput::LocalProbed { version_lines: None });
    machine.step(BootInput::ContainerProbed { found: true });
    machine.step(BootInput::ContainerIdRead { result: Ok(Some("id0".to_string())) });
    machine.step(BootInput::CreateFinished { result: Ok(false) });
    assert!(matches!(
        machine.phase,
        BootPhase::Failed { error: Error::DockerFailed("failed to create container") }
    ));
}

#[test]
fn boot_spawn_io_error_is_fatal() {
    let (mut machine, _) = begin("m.gguf", Backend::Cpu);
    machine.step(BootInput::LocalProbed { version_lines: Some(vec![]) });
    machine.step(BootInput::LocalSpawned { result: Err("broken pipe".to_string()) });
    match &machine.phase {
        BootPhase::Failed { error: Error::IOFailed(message) } => {
            assert_eq!(message, "broken pipe");
        }
        other => panic!("expected an I/O failure, got {other:?}"),
    }
}

#[test]
fn boot_health_poll_retries_until_healthy() {
    let (mut machine, _) = begin("m.gguf", Backend::Cpu);
    machine.step(BootInput::LocalProbed { version_lines: Some(vec![]) });
    let actions = machine.step(BootInput::LocalSpawned { result: Ok(()) });
    assert!(matches!(
        actions[..],
        [BootAction::Sleep, BootAction::CheckHealth { .. }]
    ));
    let actions = machine.step(BootInput::HealthChecked { healthy: false });
    match &actions[..] {
        [BootAction::Sleep, BootAction::CheckHealth { url }] => {
            assert_eq!(url, "http://localhost:8080/health");
        }
        other => panic!("expected another poll round, got {other:?}"),
    }
    machine.step(BootInput::HealthChecked { healthy: true });
    match &machine.phase {
        BootPhase::Resolved { reason } => match reason.source() {
            Source::Local(path) => assert_eq!(path, "m.gguf"),
            Source::Remote(_) => panic!("expected a local source"),
        },
        other => panic!("expected a resolved boot, got {other:?}"),
    }
}

#[test]
fn boot_forwards_log_lines_while_polling() {
    let (mut machine, _) = begin("m.gguf", Backend::Cpu);
    machine.step(BootInput::LocalProbed { version_lines: Some(vec![]) });
    machine.step(BootInput::LocalSpawned { result: Ok(()) });
    let actions = machine.step(BootInput::LogLine { line: "loading tensors".to_string() });
    assert!(matches!(
        &actions[..],
        [BootAction::Notify { event: BootEvent::Logged(line) }] if line == "loading tensors"
    ));
    machine.step(BootInput::HealthChecked { healthy: true });
    let actions = machine.step(BootInput::LogLine { line: "late".to_string() });
    assert!(actions.is_empty());
}

#[test]
fn container_release_stops_exactly_once() {
    let server = Server::Container { id: "abc".to_string(), model: "m.gguf".to_string() };
    let mut guard = ServerGuard::new(server);
    assert_eq!(
        guard.release(),
        Some(vec!["stop".to_string(), "abc".to_string()])
    );
    assert_eq!(guard.release(), None);
    assert_eq!(guard.release(), None);
}

#[test]
fn process_and_remote_release_nothing() {
    let mut guard = ServerGuard::new(Server::Process { model: "m.gguf".to_string() });
    assert_eq!(guard.release(), None);
    let mut guard = ServerGuard::new(Server::Remote { url: "http://h:1".to_string() });
    assert_eq!(guard.release(), None);
}

#[test]
fn remote_host_trims_trailing_slashes() {
    let server = Server::Remote { url: "http://example.test:8080///".to_string() };
    assert_eq!(server.host(), "http://example.test:8080");
    assert_eq!(server.health_endpoint(), "http://example.test:8080/health");
}

#[test]
fn completions_endpoint_comes_from_the_handle() {
    let handle = reason::Reason::resolved(
        "m".to_string(),
        Server::Remote { url: "http://h:9/".to_string() },
    );
    assert_eq!(handle.name(), "m");
    assert_eq!(
        handle.completions_endpoint(),
        "http://h:9/v1/chat/completions"
    );
    match handle.source() {
        Source::Remote(url) => assert_eq!(url, "http://h:9/"),
        Source::Local(_) => panic!("expected a remote source"),
    }
}

#[test]
fn models_endpoint_is_built_from_trimmed_host() {
    assert_eq!(models_endpoint("http://h:9/"), "http://h:9/v1/models");
    assert_eq!(models_endpoint("http://h:9"), "http://h:9/v1/models");
}

#[test]
fn connect_resolves_immediately_on_health() {
    // A healthy first probe ends the poll with no sleep cycle; an
    // unhealthy one forces a retry interval first.
    assert!(!connect_retries(true));
    assert!(connect_retries(false));
    let probes = [false, true];
    let mut sleeps = 0;
    for healthy in probes {
        if connect_retries(healthy) {
            sleeps += 1;
        } else {
            break;
        }
    }
    assert_eq!(sleeps, 1);
}
