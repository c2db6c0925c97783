//! RepoLens: a local git repository index.
pub mod config;
pub mod datetime;
pub mod db;
pub mod display;
pub mod fingerprint;
pub mod json;
pub mod manifest;
pub mod models;
pub mod paths;
pub mod scan;
pub mod scanner;
pub mod search;
pub mod text;
