//! Verified core logic of the goose / OpenDuck agent tooling: text helpers,
//! JSON and pattern models, browser-scrape market extraction, slash-command
//! completion, session-resume formatting, configuration lookups and the
//! Polymarket and Grok Build helpers that compute rather than talk to the world.

pub mod brand_meta;
pub mod browser;
pub mod completion;
pub mod config_env;
pub mod gamma;
pub mod grok;
pub mod json;
pub mod market_json;
pub mod market_text;
pub mod migration;
pub mod paths;
pub mod pattern;
pub mod polymarket;
pub mod resume;
pub mod scrape;
pub mod text;
