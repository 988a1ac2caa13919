use vstd::prelude::*;

pub mod compare;
pub mod config;
pub mod engine;
pub mod error;
pub mod json;
pub mod keys;
pub mod merkle;
pub mod params;
pub mod performance;
pub mod results;
pub mod text;
