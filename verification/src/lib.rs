//! A rule-driven recursive cleanup engine: each rule names a destination
//! directory, a target kind (files by extension or folders by name), a
//! case-insensitive pattern set and an optional exclusion set; the engine
//! walks the destination depth-first, reports excluded entries, removes
//! matched ones (or only reports them, in a dry run), and descends into
//! unmatched directories. The traversal is verified against a modeled
//! filesystem tree; the surrounding program observes the real filesystem
//! and performs the removals the engine decides on.

pub mod config;
pub mod fsmodel;
pub mod laws;
pub mod manager;
pub mod matcher;
pub mod walker;
pub mod text;
