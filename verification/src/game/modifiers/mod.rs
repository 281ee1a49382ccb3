pub mod modifier_cache;
pub mod modifier_operations;
pub mod modifier_service;
pub mod modifier_scheduler;
