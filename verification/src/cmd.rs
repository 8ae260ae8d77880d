pub mod browse;
pub mod clone;
