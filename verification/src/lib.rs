pub mod text;
pub mod meta;
pub mod file_tree;
pub mod error;
pub mod clock;
pub mod hash;
pub mod tables;
pub mod dav;
pub mod vfs;
pub mod util;
pub mod encoding;
pub mod storage;
pub mod task;
pub mod rebalance;
pub mod managers;
pub mod web;
pub mod xml;
pub mod config;
