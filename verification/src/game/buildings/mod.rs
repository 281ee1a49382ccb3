pub mod building_operations;
pub mod requirement_operations;
