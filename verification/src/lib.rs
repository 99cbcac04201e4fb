//! Core engine for autonomous, interruptible agent behavior in a tick-driven
//! simulation: per-agent action queues, a composite action algebra (sequences,
//! parallel groups, repeats), and the movement actuator state machine that the
//! primitive move/turn actions drive.
//!
//! All kinematics use fixed-point integers: positions in millimeters and
//! angles in mils (1/6400 of a full turn), so that every completion decision
//! (distance within tolerance, heading within alignment tolerance) is an exact
//! integer predicate.

pub mod actions;
pub mod agent;
pub mod animation;
pub mod assets;
pub mod behavior;
pub mod game_state;
pub mod geom;
pub mod laws;
pub mod movement;
pub mod mover;
pub mod player;
pub mod queue;
pub mod recurrence;
pub mod spawn;
pub mod trigger;
pub mod world;
