//! A swarm of particles that traces a pulsing heart curve, simulated in fixed-point integers.
//!
//! Positions are in units of 1/400 pixel and angles in steps of 1/400 radian, so that a
//! coordinate can be read as an angle. Sines and cosines come from a `TrigTable` that the
//! caller fills, and every random quantity is passed in as a uniform draw.
pub mod curve;
pub mod fixed;
pub mod particle;
pub mod simulation;
