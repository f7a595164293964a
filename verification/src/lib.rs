//! A shared pixel canvas driven by a one-line text protocol.
//!
//! A client sends one line: `HELP`, `SIZE`, `PX <x> <y>` to read a slot, or
//! `PX <x> <y> <color>` to write one. [`command::match_cmd`] reads the line
//! into a [`command::Command`], and [`handler::command_handler`] carries a
//! command out on the [`canvas::Canvas`] and gives the bytes of the reply.
//! Requests are carried out one at a time, so the canvas needs no lock.
//!
//! Every function states what it computes over mathematical values: a line
//! is a sequence of characters, the canvas is a [`canvas::Grid`], and a
//! reply is a sequence of characters whose codes are the bytes sent. The
//! module [`laws`] proves what follows for every canvas and every sequence
//! of requests.
//!
//! Colours are read and written by the crate `hex_color`; what is taken on
//! trust of it is said in [`color`].

pub mod canvas;
pub mod color;
pub mod command;
pub mod handler;
pub mod laws;
pub mod pixel;
pub mod text;
pub mod token;
pub mod worker;
