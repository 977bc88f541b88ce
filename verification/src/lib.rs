//! Verified core of a Zellij system monitor: the status-bar layout of the
//! plugin, the decisions of the plugin and of the monitor daemon, and the
//! memory and GPU usage records that the daemon sends.

pub mod ansi;
pub mod style;
pub mod status_bar;
pub mod system_info;
pub mod monitor;
pub mod plugin;
