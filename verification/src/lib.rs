pub mod aggregator;
pub mod cards;
pub mod download;
pub mod download_keys;
pub mod editing;
pub mod inbox;
pub mod links_job;
pub mod lists;
pub mod log;
pub mod magnet_job;
pub mod movies;
pub mod pages;
pub mod realdebrid;
pub mod results;
pub mod rows;
pub mod search_keys;
pub mod selection;
pub mod selection_keys;
pub mod session;
pub mod settings;
pub mod sources;
pub mod tasks;
pub mod text;
pub mod transfer;
pub mod units;
