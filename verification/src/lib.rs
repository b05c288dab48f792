//! Orchestration core for a GPU compute-and-display pipeline: typed image
//! resources bound at fixed slots, kernel program construction, compute
//! dispatch sizing, barrier-protocol checking, the frame loop state machine,
//! and a deterministic reference model of the field images.

pub mod dispatch;
pub mod field;
pub mod frame;
pub mod kernel;
pub mod orchestrator;
pub mod pipeline;
pub mod resource;
