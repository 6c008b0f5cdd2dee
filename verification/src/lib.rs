//! A model of a GPU-driven feed-forward neural-network trainer.
//!
//! The library owns everything about a training run that can be decided on
//! the host: network topology and per-layer buffer sizes, the zero-initialised
//! parameter store and its file records, encoding of text labels into feature
//! vectors, the seeded split of the dataset into training and checking
//! subsets, workgroup sizing, bind-group wiring and the dispatch schedule of a
//! training step, and the strategy for reading buffers back from the device.
//! Scalars are carried as `u32` IEEE-754 bit patterns; the thin runner that
//! owns the device interprets them as 32-bit floats and executes the plans
//! this library produces.

pub mod color;
pub mod gpu;
pub mod input;
pub mod layer;
pub mod misc;
pub mod neural_network;
pub mod shaders;
pub mod string;
pub mod training_data;
