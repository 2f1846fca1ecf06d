//! A log-tailing engine for game-engine editor and build logs: an
//! incremental line decoder, a structured line parser, a cook-progress
//! tracker, the decisions of a tail worker over a growing, rotating file,
//! and a capped scrollback with category filtering and hit-testing.
pub mod decoder;
pub mod engine;
pub mod parser;
pub mod progress;
pub mod tail;
pub mod targets;
pub mod text;
pub mod ui;
pub mod view;
