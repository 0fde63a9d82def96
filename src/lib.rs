//! Verified core of a headless orchestration loop that drives an external
//! command-line agent through bounded iterations.
//!
//! The library holds the event bus and its routing rules, the topic matcher,
//! the event-tag parser, the framing of the append-only event log, the prompt
//! builders and the iteration state machine. Process execution, file access,
//! configuration loading and terminal output live outside it.

pub mod text;
pub mod topic;
pub mod hat;
pub mod event;
pub mod event_bus;
pub mod event_parser;
pub mod event_reader;
pub mod config;
pub mod hat_registry;
pub mod instructions;
pub mod hatless_ralph;
pub mod event_loop;
pub mod status;

pub use config::{CliConfig, CoreConfig, EventLoopConfig, HatConfig, RalphConfig};
pub use event::Event;
pub use event_bus::EventBus;
pub use event_loop::{EventLoop, LoopState, TerminationReason};
pub use event_parser::EventParser;
pub use hat::{Hat, HatId};
pub use hat_registry::HatRegistry;
pub use hatless_ralph::HatlessRalph;
pub use instructions::InstructionBuilder;
pub use topic::Topic;
