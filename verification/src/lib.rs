//! Planning pipeline for staged long-form fiction production.
//!
//! The library turns a genre and premise into validated planning artifacts:
//! a market-feasibility report, a narrative outline, and a chapter-by-chapter
//! plan with scheduled plot twists.  All computation here is verified;
//! network and file access live outside the library and hand in plain values.

pub mod codec;
pub mod config;
pub mod ids;
pub mod json;
pub mod labels;
pub mod llm;
pub mod models;
pub mod services;
pub mod strutil;
