pub mod accumulation;
pub mod backend;
pub mod circle;
pub mod column;
pub mod definition;
pub mod domain;
pub mod logup_component;
pub mod m31;
pub mod packed;
pub mod qm31;
pub mod wide_fib;
