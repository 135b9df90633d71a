pub mod ahoy_crawler;
pub mod crawled_inverter;
pub mod csv_sink;
pub mod dataset;
pub mod db_save;
pub mod empty_field;
pub mod pass;
pub mod series;
pub mod timestamp;
pub mod utils;

pub use ahoy_crawler::{Crawler, InverterFiles};
pub use ahoy_crawler::Crawler as AhoyCrawler;
pub use crawled_inverter::CrawledInverter;
pub use csv_sink::CsvSink;
pub use dataset::Dataset;
pub use db_save::{DbSave, DbStep};
pub use empty_field::EmptyField;
pub use pass::{CrawlPass, PassReport, PassStep};
pub use series::SeriesId;
pub use timestamp::Timestamp;
