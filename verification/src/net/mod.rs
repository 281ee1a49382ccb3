pub mod buffer;
pub mod packet;
pub mod auth;
pub mod request_id;
