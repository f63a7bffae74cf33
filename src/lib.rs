//! Scraping of historical motorsport result archives: page targets, table
//! extraction, row decoding, entity resolution and the orchestration of a
//! summary-then-detail scrape.
pub mod text;
pub mod html;
pub mod decode;
pub mod resolve;
pub mod race;
pub mod driver;
pub mod team;
pub mod fastestlap;
pub mod format;
pub mod scrape;
pub mod index;
pub mod run;
