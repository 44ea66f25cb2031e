//! Verified core of an audiobook merging tool: file discovery and grouping,
//! merge planning, metadata and chapter handling, tag/path formatting, and
//! the order of work in processing a batch.

pub mod duration;
pub mod outside_types;
pub mod text;
pub mod metadata;
pub mod paths;
pub mod tagging;
pub mod chapters;
pub mod ffmpeg;
pub mod discovery;
pub mod merge;
pub mod api;
pub mod config;
pub mod processor;
pub mod workflow;
