pub mod text;
pub mod profile;
pub mod polish_styles;
pub mod transcription;
pub mod platform;
pub mod control;
pub mod update;
pub mod wav;
pub mod audio;
pub mod intent;
pub mod clipboard_intent;
pub mod transcript;
pub mod typing;
pub mod editing;
pub mod matching;
pub mod developer_modes;
pub mod text_processing;
pub mod command_mode;
pub mod word_store;
pub mod config_cli;
pub mod context_session;
pub mod config;
pub mod llm_polish;
pub mod json;
pub mod realtime;
pub mod history;
pub mod overlay_ipc;
pub mod segment_output;
pub mod clip_pipeline;
pub mod startup;
pub mod doctor;
pub mod config_file;
