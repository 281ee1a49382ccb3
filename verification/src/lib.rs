//! Core rules of the Empire strategy game server: the binary wire protocol,
//! experience curves, building availability, construction and upgrade
//! decisions, modifier caching and stacking, resource production and
//! collection, unit training and the background job queue policy.
pub mod models;
pub mod net;
pub mod game;
pub mod domain;
pub mod time;
pub mod job_queue;
pub mod telemetry;
