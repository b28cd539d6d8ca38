//! Setup and inspection logic for OpenDAL-backed Git remotes.
pub mod backend;
pub mod bootstrap;
pub mod commands;
pub mod error;
pub mod flow;
pub mod git;
pub mod operator;
pub mod params;
pub mod remote;
pub mod setup;
pub mod status;
pub mod text;
