pub mod animation;
pub mod animation_drops;
pub mod animation_empty;
pub mod animation_leaves;
pub mod animation_set;
pub mod display;
pub mod duration;
pub mod layers;
pub mod pipeline;
pub mod pool;
pub mod rng;
pub mod wiring;
