//! The decisions behind the site's routes.
pub mod accounts;
pub mod messenger;
pub mod packs;
