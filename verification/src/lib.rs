//! The verified core of a full-screen document reader.
pub mod app;
pub mod cache;
pub mod compositor;
pub mod document;
pub mod error;
pub mod export;
pub mod geometry;
pub mod heartbeat;
pub mod picture;
pub mod presenter;
pub mod queue;
pub mod render_loop;
pub mod renderer;
pub mod rounding;
pub mod state;
pub mod terminal;
pub mod text;
pub mod vivid_thread;
