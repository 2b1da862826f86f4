//! A multi-timer countdown engine: duration fields, the state machine of one
//! timer, the timer collection, and the decisions behind persistence and
//! notification.

pub mod components;
pub mod custom_theme;
pub mod duration;
pub mod timer;
pub mod store;
