//! Core model of a non-linear video editor: identifiers, timeline
//! structure, undo history, export settings and progress.

pub mod id;
pub mod time;
pub mod timeline;
pub mod transition;
pub mod commands;
pub mod export;
pub mod media;
pub mod progress;
pub mod editor;
pub mod text;
pub mod filepath;
pub mod project;
pub mod render;
pub mod ffmpeg;
pub mod probe;
pub mod controls;
