//! An in-process data store driven by a small textual command language.
//!
//! The storage engine, the command parser and the command history are
//! verified; file access, the terminal and floating-point conversion are
//! the embedding program's business and reach the engine as plain values.

pub mod app;
pub mod arguments;
pub mod command_history;
pub mod commands;
pub mod condition;
pub mod custom_error;
pub mod event_handler;
pub mod database;
pub mod floats;
pub mod handlers;
pub mod numerals;
pub mod parsers;
pub mod replay;
pub mod round_trip;
pub mod server;
pub mod text;
pub mod text_lemmas;
pub mod text_map;
pub mod ui;
