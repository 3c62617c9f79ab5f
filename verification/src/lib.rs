//! The logic of an SSH tunnel manager: tunnel configurations, the hosts of an
//! OpenSSH client configuration, the life of a tunnel, and the screens through
//! which a user works on them.
pub mod action;
pub mod app;
pub mod config;
pub mod edit;
pub mod form;
pub mod health;
pub mod input;
pub mod key;
pub mod manager;
pub mod number;
pub mod picker;
pub mod run_loop;
pub mod screen;
pub mod ssh_config;
pub mod text;
pub mod tunnel;
pub mod view;
