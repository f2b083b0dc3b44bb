pub mod text;
pub mod paths;
pub mod dates;
pub mod hashing;
pub mod models;
pub mod db;
pub mod rows;
pub mod scanner;
pub mod cli;
pub mod copy;
pub mod report;
pub mod config;
pub mod progress;
pub mod drives;
pub mod hasher;
pub mod editing;
pub mod tui;
pub mod screens;
