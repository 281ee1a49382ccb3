pub mod resource_operations;
pub mod resource_scheduler;
