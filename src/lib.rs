pub mod broadcast;
pub mod grammar;
pub mod handshake;
pub mod process;
pub mod strategy;
