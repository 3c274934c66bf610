//! Verified core of a terminal companion for the FIFA World Cup 2026:
//! tournament data model, payload mapping, refresh scheduling, key
//! handling and the screen state machine.

pub mod app;
pub mod bracket;
pub mod domain;
pub mod fifa;
pub mod input;
pub mod order;
pub mod panel;
pub mod sync;
pub mod text;
pub mod config;
pub mod repository;
pub mod storage;
