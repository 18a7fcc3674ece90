pub mod antispam;
pub mod chatfilter;
pub mod commands;
pub mod config;
pub mod metrics;
pub mod packet;
pub mod render;
pub mod seen;
pub mod sidebar;
pub mod socials;
pub mod style;
pub mod template;
pub mod text;
pub mod tracker;
pub mod webhook;
