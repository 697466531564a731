//! Scraping of German political talk show archives: the extraction rules that
//! turn the archive pages of each show into episodes and their guests.

pub mod text;
pub mod html;
pub mod pattern;
pub mod time;
pub mod person;
pub mod compute;
pub mod extract;
pub mod crawl;
pub mod anne_will;
pub mod maischberger;
pub mod hart_aber_fair;
pub mod zdf;
pub mod markus_lanz;
pub mod maybrit_illner;
pub mod store;
