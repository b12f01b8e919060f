pub mod bytes;
pub mod cli;
pub mod collections;
pub mod command_laws;
pub mod config;
pub mod config_laws;
pub mod daemon;
pub mod daemon_laws;
pub mod daemon_operation_laws;
pub mod device;
pub mod device_laws;
pub mod engine_laws;
pub mod follow_laws;
pub mod hardware;
pub mod hardware_laws;
pub mod hook_laws;
pub mod journal;
pub mod journal_laws;
pub mod journal_tracker;
pub mod json;
pub mod keyboard_operation_laws;
pub mod lighting;
pub mod log_rotation;
pub mod message_laws;
pub mod navigation;
pub mod operation_laws;
pub mod paths;
pub mod protocol;
pub mod reaction_laws;
pub mod schedule_laws;
pub mod seqs;
pub mod service_operation_laws;
pub mod state;
pub mod status;
pub mod task_laws;
pub mod text;
pub mod time;
pub mod update;
pub mod wire;
pub mod wire_laws;
