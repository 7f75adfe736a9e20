//! Extraction of the readable words and the link targets of one HTML page.

pub mod address;
pub mod document;
pub mod scrape_page;
pub mod words;
