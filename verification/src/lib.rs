//! Core logic of a terminal notes organizer: the hierarchical browse
//! projection (turning a directory scan plus expand/collapse state into a
//! stable, navigable row list) and the screen navigation state machine that
//! interprets key events and drives file and folder creation.

pub mod app;
pub mod browse;
pub mod clock;
pub mod events;
pub mod expansion;
pub mod laws;
pub mod naming;
pub mod paths;
pub mod settings;
