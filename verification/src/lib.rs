pub mod chunk;
pub mod config;
pub mod protocol;
pub mod purchase;
pub mod scheduler;
pub mod songid;
pub mod verify;
pub mod wallet;
