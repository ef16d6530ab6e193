pub mod bot;
pub mod bot_laws;
pub mod cli;
pub mod clock;
pub mod config;
pub mod credentials;
pub mod effect;
pub mod image;
pub mod interval;
pub mod json;
pub mod logs;
pub mod menu;
pub mod number;
pub mod paths;
pub mod pattern;
pub mod pending;
pub mod service;
pub mod telegram;
pub mod text;
pub mod verification;
pub mod welcome;
pub mod whitelist;
