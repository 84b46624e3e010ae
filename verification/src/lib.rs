//! Discrete core of an agent-based artificial-life simulator.
//!
//! The crate holds the bookkeeping of the simulation: the segment layout of
//! genomes, the weight layout of the neural controller, the cell grid of the
//! resource field, identity allocation, death, compaction and reproduction of
//! organisms, and the sampling schedule of an experiment. Every type is
//! parametric in the numeric payload it carries, so the arithmetic on those
//! payloads is left to the caller while the structure around it is proved here.

pub mod agent;
pub mod config;
pub mod genome;
pub mod nn;
pub mod organism;
pub mod resource;
pub mod spatial;
pub mod text;
pub mod world;
