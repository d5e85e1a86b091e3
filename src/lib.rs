pub mod chain;
pub mod cli;
pub mod codec;
pub mod hashing;
pub mod ibc;
pub mod keys;
pub mod log;
pub mod params;
pub mod plan;
pub mod search;
pub mod storage;
pub mod transaction;
pub mod view;
