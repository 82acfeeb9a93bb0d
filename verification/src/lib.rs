//! Camera registry, storage paths and configuration rules of the openads
//! surveillance system.
pub mod decimal;
pub mod info;
pub mod scan;
pub mod read;
pub mod camera;
pub mod execution;
pub mod processing;
pub mod storage;
pub mod store;
pub mod models;
