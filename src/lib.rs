//! A small feed-forward neural-network engine: dense matrices (`matrix`),
//! activation and loss functions (`activation`, `loss`), fully connected
//! layers (`layer`), a multi-layer network that computes gradients by
//! backpropagation (`network`), a momentum gradient-descent optimizer
//! (`optimizer`) and batch sampling (`utils`). Everything that can go wrong
//! is a `failure::NetworkError`.
//!
//! The engine is generic over its number type (see `scalar`): the verified
//! code moves numbers between matrices and checks every shape, while each
//! arithmetic step is one call of the number type's own operations.

pub mod failure;
pub mod scalar;
pub mod matrix;
pub mod activation;
pub mod loss;
pub mod layer;
pub mod network;
pub mod optimizer;
pub mod utils;
