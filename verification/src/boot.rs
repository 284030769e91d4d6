//! The boot orchestrator: a state machine that decides how an
//! executor is detected, launched and confirmed ready. The unverified
//! shell performs each returned action (spawning, probing, HTTP) and
//! feeds the observation back in as the next input.

use vstd::prelude::*;
use vstd::string::{StrSliceExecFns, StringExecFns};

use crate::backend::Backend;
use crate::error::{Error, ErrorView};
use crate::server::{Reason, ReasonView, Server, ServerView, host_of};
use crate::text::{dir_of, dir_of_path, file_stem, stem_of, str_views};

verus! {

/// A boot progress notification: a stage with a percentage, or one
/// log line of the launching executor.
#[derive(Debug)]
pub enum BootEvent {
    Progressed { stage: &'static str, percent: u32 },
    Logged(String),
}

#[verifier::ext_equal]
pub enum BootEventView {
    Progressed { stage: Seq<char>, percent: u32 },
    Logged(Seq<char>),
}

impl View for BootEvent {
    type V = BootEventView;

    open spec fn view(&self) -> BootEventView {
        match self {
            BootEvent::Progressed { stage, percent } => BootEventView::Progressed {
                stage: stage@,
                percent: *percent,
            },
            BootEvent::Logged(line) => BootEventView::Logged(line@),
        }
    }
}

/// One observation handed to the boot machine by the shell that runs
/// its actions.
#[derive(Debug)]
#[allow(inconsistent_fields)]
pub enum BootInput {
    /// Start the boot.
    Begin,
    /// The local server binary's version probe: its standard output
    /// lines when the binary ran, or nothing when it is missing.
    LocalProbed { version_lines: Option<Vec<String>> },
    /// The local server spawn finished, or failed with an I/O error.
    LocalSpawned { result: Result<(), String> },
    /// Whether the container runtime's version probe succeeded.
    ContainerProbed { found: bool },
    /// The one line of container id the create command printed, if
    /// any, or an I/O error while reading it.
    ContainerIdRead { result: Result<Option<String>, String> },
    /// The create command exited; `true` means success.
    CreateFinished { result: Result<bool, String> },
    /// The start command finished, or failed with an I/O error.
    ContainerStarted { result: Result<(), String> },
    /// Following the container logs began, or failed with an I/O
    /// error.
    LogsAttached { result: Result<(), String> },
    /// One readiness probe of the health endpoint answered.
    HealthChecked { healthy: bool },
    /// One line of launcher output arrived.
    LogLine { line: String },
}

#[verifier::ext_equal]
#[allow(inconsistent_fields)]
pub enum BootInputView {
    Begin,
    LocalProbed { version_lines: Option<Seq<Seq<char>>> },
    LocalSpawned { result: Result<(), Seq<char>> },
    ContainerProbed { found: bool },
    ContainerIdRead { result: Result<Option<Seq<char>>, Seq<char>> },
    CreateFinished { result: Result<bool, Seq<char>> },
    ContainerStarted { result: Result<(), Seq<char>> },
    LogsAttached { result: Result<(), Seq<char>> },
    HealthChecked { healthy: bool },
    LogLine { line: Seq<char> },
}

impl View for BootInput {
    type V = BootInputView;

    open spec fn view(&self) -> BootInputView {
        match self {
            BootInput::Begin => BootInputView::Begin,
            BootInput::LocalProbed { version_lines } => BootInputView::LocalProbed {
                version_lines: match version_lines {
                    Some(lines) => Some(str_views(lines@)),
                    None => None,
                },
            },
            BootInput::LocalSpawned { result } => BootInputView::LocalSpawned {
                result: match result {
                    Ok(_) => Ok(()),
                    Err(e) => Err(e@),
                },
            },
            BootInput::ContainerProbed { found } => BootInputView::ContainerProbed {
                found: *found,
            },
            BootInput::ContainerIdRead { result } => BootInputView::ContainerIdRead {
                result: match result {
                    Ok(Some(line)) => Ok(Some(line@)),
                    Ok(None) => Ok(None),
                    Err(e) => Err(e@),
                },
            },
            BootInput::CreateFinished { result } => BootInputView::CreateFinished {
                result: match result {
                    Ok(success) => Ok(*success),
                    Err(e) => Err(e@),
                },
            },
            BootInput::ContainerStarted { result } => BootInputView::ContainerStarted {
                result: match result {
                    Ok(_) => Ok(()),
                    Err(e) => Err(e@),
                },
            },
            BootInput::LogsAttached { result } => BootInputView::LogsAttached {
                result: match result {
                    Ok(_) => Ok(()),
                    Err(e) => Err(e@),
                },
            },
            BootInput::HealthChecked { healthy } => BootInputView::HealthChecked {
                healthy: *healthy,
            },
            BootInput::LogLine { line } => BootInputView::LogLine { line: line@ },
        }
    }
}

/// One action the shell must perform for the boot machine.
#[derive(Debug)]
pub enum BootAction {
    /// Forward a progress notification to the boot's observer.
    Notify { event: BootEvent },
    /// Run the local server binary with its version flag.
    ProbeLocal,
    /// Spawn the local server binary with these arguments, its output
    /// piped.
    SpawnLocal { args: Vec<String> },
    /// Run the container runtime's version command.
    ProbeContainer,
    /// Run the container runtime's create command with these
    /// arguments, its output piped.
    CreateContainer { args: Vec<String> },
    /// Run the container runtime's start command for this container.
    StartContainer { id: String },
    /// Begin following this container's combined log output.
    FollowLogs { id: String },
    /// Stop forwarding launcher logs; readiness has been confirmed.
    StopLogs,
    /// Sleep one retry interval.
    Sleep,
    /// Issue one readiness probe against this URL.
    CheckHealth { url: String },
}

#[verifier::ext_equal]
pub enum BootActionView {
    Notify { event: BootEventView },
    ProbeLocal,
    SpawnLocal { args: Seq<Seq<char>> },
    ProbeContainer,
    CreateContainer { args: Seq<Seq<char>> },
    StartContainer { id: Seq<char> },
    FollowLogs { id: Seq<char> },
    StopLogs,
    Sleep,
    CheckHealth { url: Seq<char> },
}

impl View for BootAction {
    type V = BootActionView;

    open spec fn view(&self) -> BootActionView {
        match self {
            BootAction::Notify { event } => BootActionView::Notify { event: event@ },
            BootAction::ProbeLocal => BootActionView::ProbeLocal,
            BootAction::SpawnLocal { args } => BootActionView::SpawnLocal {
                args: str_views(args@),
            },
            BootAction::ProbeContainer => BootActionView::ProbeContainer,
            BootAction::CreateContainer { args } => BootActionView::CreateContainer {
                args: str_views(args@),
            },
            BootAction::StartContainer { id } => BootActionView::StartContainer { id: id@ },
            BootAction::FollowLogs { id } => BootActionView::FollowLogs { id: id@ },
            BootAction::StopLogs => BootActionView::StopLogs,
            BootAction::Sleep => BootActionView::Sleep,
            BootAction::CheckHealth { url } => BootActionView::CheckHealth { url: url@ },
        }
    }
}

/// The views of a sequence of boot actions, in order.
pub open spec fn action_views(s: Seq<BootAction>) -> Seq<BootActionView> {
    s.map_values(|a: BootAction| a@)
}

/// The arguments the local server binary is launched with: the model
/// path, the fixed local port and loopback host, and the accelerator
/// layer count when the backend uses a GPU.
pub open spec fn local_launch_args(model: Seq<char>, backend: Backend) -> Seq<Seq<char>> {
    let base = seq![
        "--jinja"@,
        "--model"@,
        model,
        "--port"@,
        "8080"@,
        "--host"@,
        "127.0.0.1"@,
    ];
    if backend is Cpu {
        base
    } else {
        base + seq!["--gpu-layers"@, "80"@]
    }
}

/// Build the local launch arguments for this model and backend.
pub fn local_server_args(model: &str, backend: Backend) -> (args: Vec<String>)
    ensures
        str_views(args@) == local_launch_args(model@, backend),
{
    let mut args: Vec<String> = Vec::new();
    args.push(String::from_str("--jinja"));
    args.push(String::from_str("--model"));
    args.push(String::from_str(model));
    args.push(String::from_str("--port"));
    args.push(String::from_str("8080"));
    args.push(String::from_str("--host"));
    args.push(String::from_str("127.0.0.1"));
    if backend.uses_gpu() {
        args.push(String::from_str("--gpu-layers"));
        args.push(String::from_str("80"));
    }
    assert(str_views(args@) =~~= local_launch_args(model@, backend));
    args
}

/// The arguments of the container create command: backend-specific
/// image and device flags, the model's directory bound into the
/// container, and the fixed port mapping. The model file is addressed
/// inside the container by its stem.
pub open spec fn container_create_args(model: Seq<char>, backend: Backend) -> Seq<Seq<char>> {
    let volume = dir_of(model) + ":/models"@;
    let model_arg = "/models/"@ + stem_of(model);
    match backend {
        Backend::Cpu => seq![
            "create"@,
            "--rm"@,
            "-p"@,
            "8080:80"@,
            "-v"@,
            volume,
            "ghcr.io/ggerganov/llama.cpp:server-b4600"@,
            "--jinja"@,
            "--model"@,
            model_arg,
            "--port"@,
            "80"@,
            "--host"@,
            "0.0.0.0"@,
        ],
        Backend::Cuda => seq![
            "create"@,
            "--rm"@,
            "--gpus"@,
            "all"@,
            "-p"@,
            "8080:80"@,
            "-v"@,
            volume,
            "ghcr.io/ggerganov/llama.cpp:server-cuda-b4600"@,
            "--jinja"@,
            "--model"@,
            model_arg,
            "--port"@,
            "80"@,
            "--host"@,
            "0.0.0.0"@,
            "--gpu-layers"@,
            "40"@,
        ],
        Backend::Rocm => seq![
            "create"@,
            "--rm"@,
            "-p"@,
            "8080:80"@,
            "-v"@,
            volume,
            "--device=/dev/kfd"@,
            "--device=/dev/dri"@,
            "--security-opt"@,
            "seccomp=unconfined"@,
            "--group-add"@,
            "video"@,
            "ghcr.io/hecrj/icebreaker:server-rocm-b4600"@,
            "--model"@,
            model_arg,
            "--port"@,
            "80"@,
            "--host"@,
            "0.0.0.0"@,
            "--gpu-layers"@,
            "40"@,
        ],
    }
}

/// Build the container create arguments for this model and backend.
pub fn container_args(model: &str, backend: Backend) -> (args: Vec<String>)
    ensures
        str_views(args@) == container_create_args(model@, backend),
{
    let volume = dir_of_path(model).concat(":/models");
    let model_arg = String::from_str("/models/").concat(file_stem(model).as_str());
    let mut args: Vec<String> = Vec::new();
    args.push(String::from_str("create"));
    args.push(String::from_str("--rm"));
    match backend {
        Backend::Cuda => {
            args.push(String::from_str("--gpus"));
            args.push(String::from_str("all"));
        },
        _ => {},
    }
    args.push(String::from_str("-p"));
    args.push(String::from_str("8080:80"));
    args.push(String::from_str("-v"));
    args.push(volume);
    match backend {
        Backend::Cpu => {
            args.push(String::from_str("ghcr.io/ggerganov/llama.cpp:server-b4600"));
            args.push(String::from_str("--jinja"));
        },
        Backend::Cuda => {
            args.push(String::from_str("ghcr.io/ggerganov/llama.cpp:server-cuda-b4600"));
            args.push(String::from_str("--jinja"));
        },
        Backend::Rocm => {
            args.push(String::from_str("--device=/dev/kfd"));
            args.push(String::from_str("--device=/dev/dri"));
            args.push(String::from_str("--security-opt"));
            args.push(String::from_str("seccomp=unconfined"));
            args.push(String::from_str("--group-add"));
            args.push(String::from_str("video"));
            args.push(String::from_str("ghcr.io/hecrj/icebreaker:server-rocm-b4600"));
        },
    }
    args.push(String::from_str("--model"));
    args.push(model_arg);
    args.push(String::from_str("--port"));
    args.push(String::from_str("80"));
    args.push(String::from_str("--host"));
    args.push(String::from_str("0.0.0.0"));
    match backend {
        Backend::Cpu => {},
        _ => {
            args.push(String::from_str("--gpu-layers"));
            args.push(String::from_str("40"));
        },
    }
    assert(str_views(args@) =~~= container_create_args(model@, backend));
    args
}

/// Where the boot stands.
#[derive(Debug)]
pub enum BootPhase {
    /// Nothing has happened yet.
    Idle,
    /// The local binary's version probe is running.
    ProbingLocal,
    /// The local server is being spawned.
    SpawningLocal,
    /// The container runtime's version probe is running.
    ProbingContainer,
    /// The create command is running; its id line is awaited.
    ReadingContainerId,
    /// The create command's exit status is awaited.
    AwaitingCreate { id: String },
    /// The start command is running.
    StartingContainer { id: String },
    /// Log following is being attached.
    AttachingLogs { id: String },
    /// The launched executor is polled for readiness.
    Polling { server: Server },
    /// The boot resolved to a client handle.
    Resolved { reason: Reason },
    /// The boot failed; the error is terminal.
    Failed { error: Error },
}

#[verifier::ext_equal]
pub enum BootPhaseView {
    Idle,
    ProbingLocal,
    SpawningLocal,
    ProbingContainer,
    ReadingContainerId,
    AwaitingCreate { id: Seq<char> },
    StartingContainer { id: Seq<char> },
    AttachingLogs { id: Seq<char> },
    Polling { server: ServerView },
    Resolved { reason: ReasonView },
    Failed { error: ErrorView },
}

impl View for BootPhase {
    type V = BootPhaseView;

    open spec fn view(&self) -> BootPhaseView {
        match self {
            BootPhase::Idle => BootPhaseView::Idle,
            BootPhase::ProbingLocal => BootPhaseView::ProbingLocal,
            BootPhase::SpawningLocal => BootPhaseView::SpawningLocal,
            BootPhase::ProbingContainer => BootPhaseView::ProbingContainer,
            BootPhase::ReadingContainerId => BootPhaseView::ReadingContainerId,
            BootPhase::AwaitingCreate { id } => BootPhaseView::AwaitingCreate { id: id@ },
            BootPhase::StartingContainer { id } => BootPhaseView::StartingContainer { id: id@ },
            BootPhase::AttachingLogs { id } => BootPhaseView::AttachingLogs { id: id@ },
            BootPhase::Polling { server } => BootPhaseView::Polling { server: server@ },
            BootPhase::Resolved { reason } => BootPhaseView::Resolved { reason: reason@ },
            BootPhase::Failed { error } => BootPhaseView::Failed { error: error@ },
        }
    }
}

/// The boot machine: the model path, the name derived from it, the
/// backend, and the current phase.
#[derive(Debug)]
pub struct BootMachine {
    pub name: String,
    pub model: String,
    pub backend: Backend,
    pub phase: BootPhase,
}

#[verifier::ext_equal]
pub struct BootMachineView {
    pub name: Seq<char>,
    pub model: Seq<char>,
    pub backend: Backend,
    pub phase: BootPhaseView,
}

impl View for BootMachine {
    type V = BootMachineView;

    open spec fn view(&self) -> BootMachineView {
        BootMachineView {
            name: self.name@,
            model: self.model@,
            backend: self.backend,
            phase: self.phase@,
        }
    }
}

/// One transition's outcome: the next phase and the actions owed.
#[verifier::ext_equal]
pub struct BootStep {
    pub phase: BootPhaseView,
    pub actions: Seq<BootActionView>,
}

/// A terminal failure: no actions, ever after.
pub open spec fn boot_failed(error: ErrorView) -> BootStep {
    BootStep { phase: BootPhaseView::Failed { error }, actions: seq![] }
}

/// The log notifications for a run of launcher output lines.
pub open spec fn logged_notifications(lines: Seq<Seq<char>>) -> Seq<BootActionView> {
    lines.map_values(|l: Seq<char>| BootActionView::Notify { event: BootEventView::Logged(l) })
}

/// The boot machine's transition relation. The fallback order is
/// fixed: the local binary is probed first; only if it is missing is
/// the container runtime probed; if that is missing too the boot
/// fails with no executor available and no launch was ever attempted.
/// Launch or I/O failures after a probe succeeded are terminal. The
/// readiness poll retries forever, one sleep per unhealthy answer,
/// and resolution cancels log forwarding.
pub open spec fn boot_transition(m: BootMachineView, input: BootInputView) -> BootStep {
    match (m.phase, input) {
        (BootPhaseView::Idle, BootInputView::Begin) => BootStep {
            phase: BootPhaseView::ProbingLocal,
            actions: seq![
                BootActionView::Notify {
                    event: BootEventView::Progressed {
                        stage: "Detecting executor..."@,
                        percent: 0,
                    },
                },
                BootActionView::ProbeLocal,
            ],
        },
        (BootPhaseView::ProbingLocal, BootInputView::LocalProbed { version_lines }) => match
        version_lines {
            Some(lines) => BootStep {
                phase: BootPhaseView::SpawningLocal,
                actions: seq![
                    BootActionView::Notify {
                        event: BootEventView::Logged("Local llama-server binary found!"@),
                    },
                ] + logged_notifications(lines) + seq![
                    BootActionView::Notify {
                        event: BootEventView::Progressed {
                            stage: "Launching assistant..."@,
                            percent: 99,
                        },
                    },
                    BootActionView::Notify {
                        event: BootEventView::Logged(
                            "Launching "@ + m.name + " with local llama-server..."@,
                        ),
                    },
                    BootActionView::SpawnLocal { args: local_launch_args(m.model, m.backend) },
                ],
            },
            None => BootStep {
                phase: BootPhaseView::ProbingContainer,
                actions: seq![BootActionView::ProbeContainer],
            },
        },
        (BootPhaseView::SpawningLocal, BootInputView::LocalSpawned { result }) => match result {
            Ok(_) => {
                let server = ServerView::Process { model: m.model };
                BootStep {
                    phase: BootPhaseView::Polling { server },
                    actions: seq![
                        BootActionView::Sleep,
                        BootActionView::CheckHealth { url: host_of(server) + "/health"@ },
                    ],
                }
            },
            Err(e) => boot_failed(ErrorView::IOFailed(e)),
        },
        (BootPhaseView::ProbingContainer, BootInputView::ContainerProbed { found }) => if found {
            BootStep {
                phase: BootPhaseView::ReadingContainerId,
                actions: seq![
                    BootActionView::Notify {
                        event: BootEventView::Logged("Launching "@ + m.name + " with Docker..."@),
                    },
                    BootActionView::Notify {
                        event: BootEventView::Progressed {
                            stage: "Preparing container..."@,
                            percent: 0,
                        },
                    },
                    BootActionView::CreateContainer {
                        args: container_create_args(m.model, m.backend),
                    },
                ],
            }
        } else {
            boot_failed(ErrorView::NoExecutorAvailable)
        },
        (BootPhaseView::ReadingContainerId, BootInputView::ContainerIdRead { result }) => match
        result {
            Err(e) => boot_failed(ErrorView::IOFailed(e)),
            Ok(None) => boot_failed(
                ErrorView::DockerFailed("no container id returned by docker"@),
            ),
            Ok(Some(id)) => BootStep {
                phase: BootPhaseView::AwaitingCreate { id },
                actions: seq![],
            },
        },
        (BootPhaseView::AwaitingCreate { id }, BootInputView::CreateFinished { result }) => match
        result {
            Err(e) => boot_failed(ErrorView::IOFailed(e)),
            Ok(false) => boot_failed(ErrorView::DockerFailed("failed to create container"@)),
            Ok(true) => BootStep {
                phase: BootPhaseView::StartingContainer { id },
                actions: seq![
                    BootActionView::Notify {
                        event: BootEventView::Progressed {
                            stage: "Launching assistant..."@,
                            percent: 99,
                        },
                    },
                    BootActionView::StartContainer { id },
                ],
            },
        },
        (BootPhaseView::StartingContainer { id }, BootInputView::ContainerStarted {
            result,
        }) => match result {
            Err(e) => boot_failed(ErrorView::IOFailed(e)),
            Ok(_) => BootStep {
                phase: BootPhaseView::AttachingLogs { id },
                actions: seq![BootActionView::FollowLogs { id }],
            },
        },
        (BootPhaseView::AttachingLogs { id }, BootInputView::LogsAttached { result }) => match
        result {
            Err(e) => boot_failed(ErrorView::IOFailed(e)),
            Ok(_) => {
                let server = ServerView::Container { id, model: m.model };
                BootStep {
                    phase: BootPhaseView::Polling { server },
                    actions: seq![
                        BootActionView::Sleep,
                        BootActionView::CheckHealth { url: host_of(server) + "/health"@ },
                    ],
                }
            },
        },
        (BootPhaseView::Polling { server }, BootInputView::HealthChecked { healthy }) => if healthy {
            BootStep {
                phase: BootPhaseView::Resolved {
                    reason: ReasonView { name: m.name, server },
                },
                actions: seq![BootActionView::StopLogs],
            }
        } else {
            BootStep {
                phase: BootPhaseView::Polling { server },
                actions: seq![
                    BootActionView::Sleep,
                    BootActionView::CheckHealth { url: host_of(server) + "/health"@ },
                ],
            }
        },
        (phase, BootInputView::LogLine { line }) => match phase {
            BootPhaseView::Resolved { .. } => BootStep { phase, actions: seq![] },
            BootPhaseView::Failed { .. } => BootStep { phase, actions: seq![] },
            _ => BootStep {
                phase,
                actions: seq![
                    BootActionView::Notify { event: BootEventView::Logged(line) },
                ],
            },
        },
        (phase, _) => BootStep { phase, actions: seq![] },
    }
}

impl BootMachine {
    /// A machine ready to boot the model at `model` with `backend`;
    /// the client handle's name is the model file's stem.
    pub fn new(model: String, backend: Backend) -> (m: Self)
        ensures
            m@ == (BootMachineView {
                name: stem_of(model@),
                model: model@,
                backend,
                phase: BootPhaseView::Idle,
            }),
    {
        let name = file_stem(model.as_str());
        BootMachine { name, model, backend, phase: BootPhase::Idle }
    }

    /// Feed one observation in; returns the actions the shell must
    /// now perform, in order.
    pub fn step(&mut self, input: BootInput) -> (actions: Vec<BootAction>)
        ensures
            final(self)@.name == old(self)@.name,
            final(self)@.model == old(self)@.model,
            final(self)@.backend == old(self)@.backend,
            final(self)@.phase == boot_transition(old(self)@, input@).phase,
            action_views(actions@) == boot_transition(old(self)@, input@).actions,
    {
        let ghost t = boot_transition(self@, input@);
        let mut actions: Vec<BootAction> = Vec::new();
        let mut phase = BootPhase::Idle;
        core::mem::swap(&mut phase, &mut self.phase);
        match (phase, input) {
            (BootPhase::Idle, BootInput::Begin) => {
                actions.push(
                    BootAction::Notify {
                        event: BootEvent::Progressed { stage: "Detecting executor...", percent: 0 },
                    },
                );
                actions.push(BootAction::ProbeLocal);
                self.phase = BootPhase::ProbingLocal;
                assert(action_views(actions@) =~~= t.actions);
            },
            (BootPhase::ProbingLocal, BootInput::LocalProbed { version_lines }) => {
                match version_lines {
                    Some(lines) => {
                        actions.push(
                            BootAction::Notify {
                                event: BootEvent::Logged(
                                    String::from_str("Local llama-server binary found!"),
                                ),
                            },
                        );
                        let mut k: usize = 0;
                        while k < lines.len()
                            invariant
                                k <= lines.len(),
                                actions@.len() == 1 + k,
                                action_views(actions@)[0] == (BootActionView::Notify {
                                    event: BootEventView::Logged(
                                        "Local llama-server binary found!"@,
                                    ),
                                }),
                                forall|j: int|
                                    0 <= j < k ==> action_views(actions@)[1 + j]
                                        == (BootActionView::Notify {
                                        event: BootEventView::Logged(str_views(lines@)[j]),
                                    }),
                            decreases lines.len() - k,
                        {
                            actions.push(
                                BootAction::Notify { event: BootEvent::Logged(lines[k].clone()) },
                            );
                            k += 1;
                        }
                        actions.push(
                            BootAction::Notify {
                                event: BootEvent::Progressed {
                                    stage: "Launching assistant...",
                                    percent: 99,
                                },
                            },
                        );
                        let mut launch_log = String::from_str("Launching ");
                        launch_log.append(self.name.as_str());
                        launch_log.append(" with local llama-server...");
                        actions.push(BootAction::Notify { event: BootEvent::Logged(launch_log) });
                        actions.push(
                            BootAction::SpawnLocal {
                                args: local_server_args(self.model.as_str(), self.backend),
                            },
                        );
                        self.phase = BootPhase::SpawningLocal;
                        assert(action_views(actions@) =~~= t.actions);
                    },
                    None => {
                        actions.push(BootAction::ProbeContainer);
                        self.phase = BootPhase::ProbingContainer;
                        assert(action_views(actions@) =~~= t.actions);
                    },
                }
            },
            (BootPhase::SpawningLocal, BootInput::LocalSpawned { result }) => match result {
                Ok(_) => {
                    let server = Server::Process { model: self.model.clone() };
                    let url = server.health_endpoint();
                    actions.push(BootAction::Sleep);
                    actions.push(BootAction::CheckHealth { url });
                    self.phase = BootPhase::Polling { server };
                    assert(action_views(actions@) =~~= t.actions);
                },
                Err(e) => {
                    self.phase = BootPhase::Failed { error: Error::IOFailed(e) };
                    assert(action_views(actions@) =~~= t.actions);
                },
            },
            (BootPhase::ProbingContainer, BootInput::ContainerProbed { found }) => {
                if found {
                    let mut launch_log = String::from_str("Launching ");
                    launch_log.append(self.name.as_str());
                    launch_log.append(" with Docker...");
                    actions.push(BootAction::Notify { event: BootEvent::Logged(launch_log) });
                    actions.push(
                        BootAction::Notify {
                            event: BootEvent::Progressed {
                                stage: "Preparing container...",
                                percent: 0,
                            },
                        },
                    );
                    actions.push(
                        BootAction::CreateContainer {
                            args: container_args(self.model.as_str(), self.backend),
                        },
                    );
                    self.phase = BootPhase::ReadingContainerId;
                    assert(action_views(actions@) =~~= t.actions);
                } else {
                    self.phase = BootPhase::Failed { error: Error::NoExecutorAvailable };
                    assert(action_views(actions@) =~~= t.actions);
                }
            },
            (BootPhase::ReadingContainerId, BootInput::ContainerIdRead { result }) => match result {
                Err(e) => {
                    self.phase = BootPhase::Failed { error: Error::IOFailed(e) };
                    assert(action_views(actions@) =~~= t.actions);
                },
                Ok(None) => {
                    self.phase = BootPhase::Failed {
                        error: Error::DockerFailed("no container id returned by docker"),
                    };
                    assert(action_views(actions@) =~~= t.actions);
                },
                Ok(Some(id)) => {
                    self.phase = BootPhase::AwaitingCreate { id };
                    assert(action_views(actions@) =~~= t.actions);
                },
            },
            (BootPhase::AwaitingCreate { id }, BootInput::CreateFinished { result }) => match result {
                Err(e) => {
                    self.phase = BootPhase::Failed { error: Error::IOFailed(e) };
                    assert(action_views(actions@) =~~= t.actions);
                },
                Ok(false) => {
                    self.phase = BootPhase::Failed {
                        error: Error::DockerFailed("failed to create container"),
                    };
                    assert(action_views(actions@) =~~= t.actions);
                },
                Ok(true) => {
                    actions.push(
                        BootAction::Notify {
                            event: BootEvent::Progressed {
                                stage: "Launching assistant...",
                                percent: 99,
                            },
                        },
                    );
                    actions.push(BootAction::StartContainer { id: id.clone() });
                    self.phase = BootPhase::StartingContainer { id };
                    assert(action_views(actions@) =~~= t.actions);
                },
            },
            (BootPhase::StartingContainer { id }, BootInput::ContainerStarted { result }) => match result {
                Err(e) => {
                    self.phase = BootPhase::Failed { error: Error::IOFailed(e) };
                    assert(action_views(actions@) =~~= t.actions);
                },
                Ok(_) => {
                    actions.push(BootAction::FollowLogs { id: id.clone() });
                    self.phase = BootPhase::AttachingLogs { id };
                    assert(action_views(actions@) =~~= t.actions);
                },
            },
            (BootPhase::AttachingLogs { id }, BootInput::LogsAttached { result }) => match result {
                Err(e) => {
                    self.phase = BootPhase::Failed { error: Error::IOFailed(e) };
                    assert(action_views(actions@) =~~= t.actions);
                },
                Ok(_) => {
                    let server = Server::Container { id, model: self.model.clone() };
                    let url = server.health_endpoint();
                    actions.push(BootAction::Sleep);
                    actions.push(BootAction::CheckHealth { url });
                    self.phase = BootPhase::Polling { server };
                    assert(action_views(actions@) =~~= t.actions);
                },
            },
            (BootPhase::Polling { server }, BootInput::HealthChecked { healthy }) => {
                if healthy {
                    actions.push(BootAction::StopLogs);
                    let reason = Reason::resolved(self.name.clone(), server);
                    self.phase = BootPhase::Resolved { reason };
                    assert(action_views(actions@) =~~= t.actions);
                } else {
                    let url = server.health_endpoint();
                    actions.push(BootAction::Sleep);
                    actions.push(BootAction::CheckHealth { url });
                    self.phase = BootPhase::Polling { server };
                    assert(action_views(actions@) =~~= t.actions);
                }
            },
            (phase, BootInput::LogLine { line }) => {
                match &phase {
                    BootPhase::Resolved { .. } | BootPhase::Failed { .. } => {},
                    _ => {
                        actions.push(BootAction::Notify { event: BootEvent::Logged(line) });
                    },
                }
                self.phase = phase;
                assert(action_views(actions@) =~~= t.actions);
            },
            (phase, _) => {
                self.phase = phase;
                assert(action_views(actions@) =~~= t.actions);
            },
        }
        actions
    }
}

/// The machine run over a whole input sequence: the final phase and
/// every action owed along the way, in order.
#[verifier::ext_equal]
pub struct BootRun {
    pub phase: BootPhaseView,
    pub actions: Seq<BootActionView>,
}

/// Fold the transition relation over an input sequence.
pub open spec fn boot_run(m: BootMachineView, inputs: Seq<BootInputView>) -> BootRun
    decreases inputs.len(),
{
    if inputs.len() == 0 {
        BootRun { phase: m.phase, actions: seq![] }
    } else {
        let t = boot_transition(m, inputs[0]);
        let after = BootMachineView { name: m.name, model: m.model, backend: m.backend, phase: t.phase };
        let rest = boot_run(after, inputs.drop_first());
        BootRun { phase: rest.phase, actions: t.actions + rest.actions }
    }
}

/// An action that launches or drives a process or container.
pub open spec fn is_launch_action(a: BootActionView) -> bool {
    ||| a is SpawnLocal
    ||| a is CreateContainer
    ||| a is StartContainer
    ||| a is FollowLogs
}

/// When both probes fail, the boot fails with no executor available,
/// and no process or container side effect was ever attempted.
pub proof fn lemma_no_executor_without_probes(m: BootMachineView)
    requires
        m.phase is Idle,
    ensures
        ({
            let inputs = seq![
                BootInputView::Begin,
                BootInputView::LocalProbed { version_lines: None },
                BootInputView::ContainerProbed { found: false },
            ];
            let run = boot_run(m, inputs);
            &&& run.phase == BootPhaseView::Failed { error: ErrorView::NoExecutorAvailable }
            &&& forall|k: int| 0 <= k < run.actions.len() ==> !is_launch_action(#[trigger] run.actions[k])
        }),
{
    reveal_with_fuel(boot_run, 5);
    let inputs = seq![
        BootInputView::Begin,
        BootInputView::LocalProbed { version_lines: None },
        BootInputView::ContainerProbed { found: false },
    ];
    let t1 = boot_transition(m, inputs[0]);
    let m1 = BootMachineView { name: m.name, model: m.model, backend: m.backend, phase: t1.phase };
    assert(inputs.drop_first() =~= seq![inputs[1], inputs[2]]);
    let t2 = boot_transition(m1, inputs[1]);
    let m2 = BootMachineView {
        name: m.name,
        model: m.model,
        backend: m.backend,
        phase: t2.phase,
    };
    assert(seq![inputs[1], inputs[2]].drop_first() =~= seq![inputs[2]]);
    let t3 = boot_transition(m2, inputs[2]);
    assert(seq![inputs[2]].drop_first() =~= Seq::<BootInputView>::empty());
    let run = boot_run(m, inputs);
    assert(run.actions =~= t1.actions + (t2.actions + (t3.actions + seq![])));
    assert forall|k: int| 0 <= k < run.actions.len() implies !is_launch_action(
        #[trigger] run.actions[k],
    ) by {
        assert(run.actions.len() == 3);
    }
}

/// The fallback order is deterministic: when the local probe fails
/// and the container probe succeeds, a successful boot resolves to a
/// container executor — never a local process — and no local spawn is
/// ever attempted.
pub proof fn lemma_container_fallback(m: BootMachineView, id: Seq<char>)
    requires
        m.phase is Idle,
    ensures
        ({
            let inputs = seq![
                BootInputView::Begin,
                BootInputView::LocalProbed { version_lines: None },
                BootInputView::ContainerProbed { found: true },
                BootInputView::ContainerIdRead { result: Ok(Some(id)) },
                BootInputView::CreateFinished { result: Ok(true) },
                BootInputView::ContainerStarted { result: Ok(()) },
                BootInputView::LogsAttached { result: Ok(()) },
                BootInputView::HealthChecked { healthy: true },
            ];
            let run = boot_run(m, inputs);
            &&& run.phase == BootPhaseView::Resolved {
                reason: ReasonView {
                    name: m.name,
                    server: ServerView::Container { id, model: m.model },
                },
            }
            &&& forall|k: int| 0 <= k < run.actions.len() ==> !((#[trigger] run.actions[k]) is SpawnLocal)
        }),
{
    let inputs = seq![
        BootInputView::Begin,
        BootInputView::LocalProbed { version_lines: None },
        BootInputView::ContainerProbed { found: true },
        BootInputView::ContainerIdRead { result: Ok(Some(id)) },
        BootInputView::CreateFinished { result: Ok(true) },
        BootInputView::ContainerStarted { result: Ok(()) },
        BootInputView::LogsAttached { result: Ok(()) },
        BootInputView::HealthChecked { healthy: true },
    ];
    reveal_with_fuel(boot_run, 10);
    let t1 = boot_transition(m, inputs[0]);
    let m1 = rephased(m, t1.phase);
    assert(inputs.drop_first() =~= inputs.subrange(1, 8));
    let t2 = boot_transition(m1, inputs[1]);
    let m2 = rephased(m, t2.phase);
    assert(inputs.subrange(1, 8).drop_first() =~= inputs.subrange(2, 8));
    let t3 = boot_transition(m2, inputs[2]);
    let m3 = rephased(m, t3.phase);
    assert(inputs.subrange(2, 8).drop_first() =~= inputs.subrange(3, 8));
    let t4 = boot_transition(m3, inputs[3]);
    let m4 = rephased(m, t4.phase);
    assert(inputs.subrange(3, 8).drop_first() =~= inputs.subrange(4, 8));
    let t5 = boot_transition(m4, inputs[4]);
    let m5 = rephased(m, t5.phase);
    assert(inputs.subrange(4, 8).drop_first() =~= inputs.subrange(5, 8));
    let t6 = boot_transition(m5, inputs[5]);
    let m6 = rephased(m, t6.phase);
    assert(inputs.subrange(5, 8).drop_first() =~= inputs.subrange(6, 8));
    let t7 = boot_transition(m6, inputs[6]);
    let m7 = rephased(m, t7.phase);
    assert(inputs.subrange(6, 8).drop_first() =~= inputs.subrange(7, 8));
    let t8 = boot_transition(m7, inputs[7]);
    assert(inputs.subrange(7, 8).drop_first() =~= Seq::<BootInputView>::empty());
    let run = boot_run(m, inputs);
    assert(run.actions =~= t1.actions + (t2.actions + (t3.actions + (t4.actions + (t5.actions + (
    t6.actions + (t7.actions + (t8.actions + seq![]))))))));
    assert forall|k: int| 0 <= k < run.actions.len() implies !((#[trigger] run.actions[k])
        is SpawnLocal) by {
        assert(t1.actions.len() == 2);
        assert(t2.actions.len() == 1);
        assert(t3.actions.len() == 3);
        assert(t4.actions.len() == 0);
        assert(t5.actions.len() == 2);
        assert(t6.actions.len() == 1);
        assert(t7.actions.len() == 2);
        assert(t8.actions.len() == 1);
    }
}

/// The same machine in another phase.
pub open spec fn rephased(m: BootMachineView, phase: BootPhaseView) -> BootMachineView {
    BootMachineView { name: m.name, model: m.model, backend: m.backend, phase }
}

} // verus!
