//! Verified core of the NigerianBot services: configuration, authentication
//! rules, identity, media/download helpers, command routing and the text that
//! every surface renders.

pub mod admin;
pub mod arr_text;
pub mod auth;
pub mod commands;
pub mod config;
pub mod downloads;
pub mod env;
pub mod identity;
pub mod library;
pub mod media;
pub mod num;
pub mod options;
pub mod paths;
pub mod schedules;
pub mod telegram;
pub mod text;
pub mod worker;
