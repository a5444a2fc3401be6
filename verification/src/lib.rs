//! Game logic of a falling-block puzzle game: pieces, the well they fall into,
//! per-player units driven by commands, the controller state machine that
//! turns input into commands, rooms of players, menus and the length-prefixed
//! framing used on the network.

pub mod vec2;
pub mod block;
pub mod mino;
pub mod well;
pub mod game;
pub mod rng;
pub mod command;
pub mod config;
pub mod mino_controller;
pub mod unit;
pub mod unit_commands;
pub mod ui;
pub mod lenio;
pub mod session;
pub mod room;
pub mod transform2;
pub mod network;
pub mod frame;
pub mod ready;
pub mod menu;
