//! The core of an interactive shell: the command model, the parser of an
//! input line, the execution engine that decides which process operations a
//! command needs (as a state machine driven by its caller), and the table of
//! background jobs.

pub mod command;
pub mod engine;
pub mod jobs;
pub mod parse;
pub mod runs;

pub use command::{
    Builtin, Command, CommandList, CommandListType, Execute, Execution, NoCommand, ProcessStatus,
    SimpleCommand,
};
pub use engine::{Action, Engine, EngineView, Event, Mode, Phase};
pub use jobs::JobRegistry;
pub use parse::{extract_simple, get_command_list, parse, split_at_separator, split_whitespace};
