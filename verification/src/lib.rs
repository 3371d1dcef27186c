//! Verified core of a small VK.com multitool: command-line and configuration
//! handling, construction of API requests, and the "voter" report that tells
//! which chat members voted in a poll and which did not.

pub mod text;
pub mod args_parser;
pub mod tools;
pub mod vk;
pub mod methods;
pub mod cli;
