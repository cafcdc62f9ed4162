//! Verified core of quoteme, a push-a-key speech-to-text tool.

pub mod audio;
pub mod cli;
pub mod config;
pub mod daemon;
pub mod health;
pub mod history;
pub mod hotkey;
pub mod images;
pub mod listener;
pub mod location;
pub mod moments;
pub mod numbers;
pub mod paste;
pub mod paths;
pub mod pid;
pub mod pieces;
pub mod recorder;
pub mod replace;
pub mod screenshot;
pub mod settings;
pub mod sorting;
pub mod text;
pub mod transcription;
pub mod vad;
