//! Per-generation simulation engine of a side-scrolling obstacle course.
//!
//! A population of birds, and optionally one bird steered by a human, fly
//! through a rolling window of pipes. Every bird that hits a pipe or leaves
//! the playfield is eliminated, and its fitness score is the tick on which
//! that happened.
//!
//! All geometry of the simulation is measured in half-pixels (see
//! [`bird::UNITS_PER_PIXEL`]): gravity takes half a pixel of velocity per
//! tick, so that unit keeps the physics exact in integers. The
//! configuration a trainer supplies ([`config::GameParams`] and
//! [`training::TrainingSimulation`]) is given in pixels.
pub mod config;
pub mod bird;
pub mod pipe;
pub mod collision;
pub mod player;
pub mod game;
pub mod training;
mod random;
