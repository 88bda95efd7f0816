//! Verified core of a twtxt client: post parsing with reply/mention
//! extraction, the canonical post identifier, feed metadata parsing,
//! conditional-GET cache decisions, feed-loading orchestration, and the
//! progressive-reveal window over a sorted post list.

pub mod app;
pub mod cache;
pub mod content;
pub mod feed;
pub mod hash;
pub mod loader;
pub mod metadata;
pub mod pages;
pub mod post;
pub mod text;
