//! Reading the catalog of crackmes.one: its list pages and entry pages,
//! and the choice of one entry among those of a page.

pub mod choice;
pub mod cli;
pub mod error;
pub mod fuzzy;
pub mod language;
pub mod list;
pub mod number;
pub mod overview;
pub mod page;
pub mod platform;
pub mod record;
pub mod request;
pub mod search;
pub mod stats;
pub mod text;

pub use language::Language;
pub use platform::Platform;
pub use scraper::{Html, Selector};
pub use stats::{Rating, Stats};
