//! Tileboard's layout, configuration and editing rules.
pub mod grid;
pub mod ieee;
pub mod text;
pub mod theme;
pub mod config;
pub mod field;
pub mod metrics;
pub mod schedule;
pub mod integrations;
pub mod validity;
pub mod tiles;
pub mod app;
