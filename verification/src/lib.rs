//! The rules of the board game: pieces, boards, placement and scoring,
//! and the service-level decisions built on top of them.

pub mod engine;
pub mod text;
pub mod theorems;
pub mod services;
pub mod api;
pub mod listing;
pub mod rules;
