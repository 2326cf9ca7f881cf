//! Shared domain logic of the OrbitalOS app suite: app identities, XDG path
//! layout, notes and snapshots, the Drift canvas layout and settings, Blink
//! settings and capture decisions.

pub mod app;
pub mod text;
pub mod config;
pub mod blink_settings;
pub mod layout;
pub mod canvas;
pub mod drift_settings;
pub mod error;
pub mod snapshot;
pub mod note;
pub mod records;
pub mod paths;
pub mod capture;
pub mod library;
pub mod editor;
pub mod history;
pub mod selection;
pub mod rich_text;
