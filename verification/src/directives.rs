pub mod estimate;
pub mod gen;
pub mod partition;
