//! A voice assistant for XiaoAi speakers.

pub mod agent;
pub mod brain;
pub mod command;
pub mod config;
pub mod decimal;
pub mod digest;
pub mod gate;
pub mod json;
pub mod mi_api;
pub mod music;
pub mod music_backend;
pub mod netease;
pub mod pattern;
pub mod percent;
pub mod polling_agent;
pub mod random;
pub mod source;
pub mod speaker;
pub mod startup;
pub mod text;
pub mod tools;
pub mod xiaoai;
