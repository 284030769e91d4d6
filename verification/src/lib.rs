//! A client library for driving a local or remote large-language-model
//! inference backend: it boots an executor (local process, container, or
//! remote endpoint) and streams chat completions from it, turning the raw
//! byte stream into typed events and a final structured reply.
//!
//! The decision logic lives here, fully verified: the boot state machine,
//! the line-framing buffer, the delta mode classifier, and the reply
//! accumulator. The surrounding I/O (processes, containers, HTTP) is driven
//! by an unverified shell that feeds observations into these machines.

mod backend;
mod boot;
mod error;
mod message;
mod server;
mod stream;
mod text;
pub mod tool;

pub use backend::Backend;
pub use boot::{
    BootAction, BootActionView, BootEvent, BootEventView, BootInput, BootInputView, BootMachine,
    BootMachineView, BootPhase, BootPhaseView, BootRun, BootStep, action_views, boot_failed,
    boot_run, boot_transition, container_args, container_create_args, is_launch_action,
    lemma_container_fallback, lemma_no_executor_without_probes, local_launch_args,
    local_server_args, logged_notifications, rephased,
};
pub use error::{Error, ErrorView};
pub use server::{
    Reason, ReasonView, Server, ServerGuard, ServerGuardView, ServerView, Source, SourceView,
    connect_retries, connect_sleeps, host_of, lemma_connect_one_retry,
    lemma_connect_resolves_immediately, lemma_release_at_most_once, models_endpoint,
    models_endpoint_of, release_yield, released_guard, source_of, stop_command_of,
};
pub use message::{
    Event, EventView, Message, MessageView, Output, OutputView, Reasoning, ReasoningView, Reply,
    WireMessage, WireMessageView, event_text, event_views, lemma_fold_split, output_text,
    output_views, outputs_after, updated_outputs, wire_messages, wire_of, wire_views, wires_of,
};
pub use stream::{
    Classified, Classifier, Completion, CompletionView, Delta, DeltaView, Framed, LineBuffer,
    Mode, chunk_outcome, chunks_outcome, classified, delta_of, frame_chunks, frame_from,
    is_data_line, lemma_chunking_preserves_events, lemma_frame_append, lemma_frame_chunking,
    line_outcome, line_views, lines_outcome,
};
pub use text::{
    contains_str, contains_sub, dir_of, dir_of_path, file_name_of, file_stem, stem_of,
    stem_of_name, str_views, suffix_after_last, trim_trailing_slashes, without_trailing_slashes,
};
pub use tool::{Call, CallView, Function, Id, Response, ResponseView, Tool, call_views};
