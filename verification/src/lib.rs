//! Core engine of a generative-art collection builder.
//!
//! The library selects one trait per image layer by weighted random
//! sampling, subject to declarative exclusion rules, enforces uniqueness
//! of the selected combinations within each generation domain, accounts
//! per-trait rarity statistics, and prepares the rendering and metadata
//! artifacts for each accepted combination. All filesystem, network and
//! terminal work lives outside the library; it consumes plain values and
//! hands plain values back.

pub mod cli;
pub mod config;
pub mod error;
pub mod generate;
pub mod images;
pub mod json;
pub mod layers;
pub mod metadata;
pub mod new_project;
pub mod nft_maker;
pub mod rarity;
pub mod render;
pub mod rng;
pub mod strutil;
