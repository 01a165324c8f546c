//! Sensor page engine for a small hardware panel: a shared sensor store,
//! pattern templates over sensor keys, the pages built from them, and the
//! hour-of-day schedule that switches the display on and off.

pub mod config;
pub mod cycle;
pub mod datetime;
pub mod matcher;
pub mod order;
pub mod pages;
pub mod schedule;
pub mod store;
pub mod template;
