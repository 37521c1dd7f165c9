pub mod action;
pub mod batch_size;
pub mod batchneed;
pub mod beer;
pub mod beer_type;
pub mod bottleneck;
pub mod capacity;
pub mod equipment;
pub mod equipment_group;
pub mod error;
pub mod factory;
pub mod group;
pub mod interval;
pub mod plan;
pub mod recipe;
pub mod sizer;
pub mod smt;
pub mod step_group;
pub mod steps;
pub mod strutil;
pub mod style;
pub mod system;
pub mod volume;
pub mod work;
