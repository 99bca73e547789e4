//! Animation blending state machine.
//!
//! A machine owns a store of named parameters and an ordered list of layers.
//! Each layer is a small state graph: states are backed by a graph of pose
//! nodes, transitions between states are timed and gated by boolean
//! parameters. Every frame each layer yields one pose; the machine sums the
//! poses of its layers, each weighted by the layer's weight.
//!
//! All quantities are integers: time is counted in ticks, weights are
//! fixed-point numbers with [`pose::WEIGHT_ONE`] standing for one, and the
//! channels of a transform are fixed-point numbers of the host's choosing.
//! A blend is a sum of products divided once at the end, so that a blend of
//! a pose with itself is that pose, whatever the two weights.
//!
//! The host samples its animation clips before each frame and hands the
//! machine the sampled poses; the machine itself reads no clock and no file.
//!
//! Small parts of an editor live here as well: the undoable edits of a
//! terrain, the decisions of the window that shows what a resource depends
//! on, and the texture binding of a material.

pub mod pool;
pub mod pose;
pub mod parameter;
pub mod event;
pub mod transition;
pub mod node;
pub mod state;
pub mod mask;
pub mod layer;
pub mod machine;
pub mod laws;
pub mod terrain;
pub mod material;
pub mod dependency;
