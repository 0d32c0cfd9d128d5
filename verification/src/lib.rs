//! A state/transition graph engine for robotic locomotion.
//!
//! The library models a robot's movement as a directed graph: nodes are
//! states (a wheel-speed pattern plus entry/exit hooks), edges are timed,
//! possibly branching transitions.  A registry owns the transition pool and
//! derives start and end states by degree analysis, and a pollable wait
//! protocol sequences transitions while a breaker predicate may end a wait
//! early.

pub mod arrow;
pub mod delay;
pub mod graph;
pub mod ids;
pub mod motor;
pub mod pattern;
pub mod sampling;
pub mod state;
pub mod transition;
