//! Density maps of a chaotic point map.
//!
//! Each frame of the animation draws many trajectories of a map over an angle
//! and a momentum, and records where they land in an accumulation buffer: a
//! grid of RGBA cells in which every landing raises red and alpha up to a
//! ceiling. This crate holds the integer side of that: the blend of one cell
//! ([`pixel`]), the grid as a mathematical value ([`grid`]), the buffer over an
//! `image` raster ([`buffer`]), the sampler that plots the landings of a frame
//! ([`sampler`]), the controller that decides when a frame is due and produces
//! it ([`controller`]), and the names of exported frames ([`export`]). The map
//! itself is floating-point arithmetic and is evaluated by the caller, who
//! hands over the pixel coordinates of the states it visits.

pub mod buffer;
pub mod controller;
pub mod export;
pub mod grid;
pub mod pixel;
mod raster;
pub mod sampler;
