//! Board synchronisation engine: maps a room/space hierarchy onto lists and
//! cards, keeps a stable drag-and-drop order, and reconciles optimistic local
//! edits with results that arrive later.
use vstd::prelude::*;

pub mod actions;
pub mod board;
pub mod cache;
pub mod codec;
pub mod dispatcher;
pub mod dto;
pub mod flow;
pub mod ids;
pub mod keyed;
pub mod models;
pub mod order;
pub mod resolver;
pub mod state;
pub mod text;

