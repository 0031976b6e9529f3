//! Logic behind the GEM12+ status display.

pub mod caption;
pub mod fingerprint;
pub mod gesture;
pub mod json;
pub mod panel_loop;
pub mod pve;
pub mod scope;
pub mod sensors;
pub mod startup;
pub mod text;
pub mod time;
pub mod touch_listener;
pub mod touch_session;
