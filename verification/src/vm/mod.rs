//! The virtual machine.

pub mod apply;
pub mod collections;
pub mod debug;
pub mod describe;
pub mod frames;
pub mod heap;
pub mod inspect;
pub mod lineage;
pub mod machine;
pub mod numeric;
pub mod operators;
pub mod ops;
pub mod origins;
pub mod pacing;
pub mod promises;
pub mod roots;
pub mod running;
pub mod safety;
pub mod stdlib;
pub mod strings;
pub mod value;
pub mod view;
pub mod watching;
pub mod wording;
pub mod world;
