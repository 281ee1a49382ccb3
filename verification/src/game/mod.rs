pub mod exp;
pub mod building_service;
pub mod buildings;
pub mod modifiers;
pub mod units;
pub mod player_operations;
pub mod resources;
