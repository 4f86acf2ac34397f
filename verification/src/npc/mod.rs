//! The built-in mechs of the arena and the tactics they share.

pub mod tactics;
pub mod boylur_plait;
pub mod clippy;
pub mod corner_turret;
pub mod deploy_jenkins;
pub mod kode_frieze;
pub mod sir_emony;
