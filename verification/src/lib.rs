//! Verified planning core of a decoder-only transformer language model.
//!
//! The crate decides everything about such a model that can be decided with
//! integers: the topology of the computation graph that a set of
//! hyperparameters calls for, which training windows are cut from a corpus,
//! how per-position gradients are grouped onto embedding rows, the order in
//! which candidate tokens are scanned during sampling, and how the context
//! window slides during generation. Numeric evaluation is left to the engine
//! that realises the plan.

pub mod arch;
mod blocks;
pub mod causal;
pub mod checkpoint;
pub mod count;
pub mod dataset;
pub mod error;
pub mod flow;
pub mod generate;
pub mod gpt;
pub mod graph;
pub mod mask;
pub mod rank;
pub mod reach;
pub mod shape;
pub mod unembed;
pub mod window;
mod wiring;

pub use crate::arch::Hyperparameters;
pub use crate::error::TensorError;
pub use crate::generate::{Generation, Step};
pub use crate::gpt::{TrainStep, Worker, GPT};
pub use crate::graph::{Graph, Node, Op, TensorId};
