//! A small todo-task library: a task record model, form intake that turns
//! submitted field values into validated drafts, a list controller that
//! assigns identifiers and timestamps, a text codec for the persisted
//! collection, and a pure projection of tasks into display lines.

pub mod codec;
pub mod controller;
pub mod intake;
pub mod laws;
pub mod model;
pub mod render;
pub mod storage;
pub mod text;
