//! A question bank: stored questions with typed answers, substring search,
//! duplicate-free creation, deletion and batch import with per-item accounting.

pub mod codec;
pub mod handlers;
pub mod models;
pub mod store;
pub mod text;
