//! Pantry Chef: the logic of a small recipe web app, verified.
pub mod text;
pub mod decimal;
pub mod recipes;
pub mod llm;
pub mod error;
pub mod auth;
pub mod pantry;
pub mod db;
pub mod config;
pub mod reset;
