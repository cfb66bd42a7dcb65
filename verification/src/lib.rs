//! Construction of acyclic computation graphs over tensors, with shape
//! inference fixed at construction time and the node order that forward and
//! backward passes follow.
//!
//! A [`GraphBuilder`] appends nodes to a graph: leaves, which hold inputs and
//! parameters, and the results of the operations in [`operations`]. Every
//! operand must exist before the node that consumes it, which keeps the graph
//! acyclic, and the shape of every result is derived when the node is made.
//! A finished [`Graph`] gives the order of a forward and of a backward pass
//! ([`passes`]); [`kernels`] holds the operations that only move entries.

pub mod autograd;
pub mod convolution;
pub mod kernels;
pub mod laws;
pub mod operations;
pub mod passes;
pub mod rules;
pub mod tensor;

pub use autograd::{Graph, GraphBuilder, GraphError, Node};
pub use convolution::ConvolutionDescription;
pub use tensor::{Activation, Operation, Shape};
