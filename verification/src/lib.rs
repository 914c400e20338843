//! Decision core of a small autonomous vehicle.

pub mod autonomy;
pub mod binary64;
pub mod elementary;
pub mod local_world;
pub mod mission;
pub mod motion_transition;
pub mod navigation;
pub mod online_mission;
pub mod protocol;
pub mod reference;
pub mod safety;
pub mod scan;
pub mod sensors;
pub mod startup_assist;
pub mod teleop;
pub mod tracking;
