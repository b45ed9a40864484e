//! Value types for physical quantities.

pub mod duration;
pub mod frequency;
pub mod rotational_direction;
