pub mod building;
pub mod decimal;
pub mod error;
pub mod factions;
pub mod modifier;
pub mod player;
pub mod resource;
pub mod unit;
