//! A recurrent neural network trained by backpropagation through time,
//! computed in signed fixed-point arithmetic.
pub mod fixed;
pub mod dense;
pub mod output;
pub mod rnn;
pub mod network;
