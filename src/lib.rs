//! A single-user store of case records ("information"), with paged listing,
//! free-text search, create / update / delete, and a spreadsheet layout for
//! exporting a set of records.
pub mod text;
pub mod error;
pub mod record;
pub mod query;
pub mod store;
pub mod calendar;
pub mod export;
pub mod laws;

pub use error::InformationError;
pub use export::{Band, CellValue, Column, Sheet};
pub use query::{InformationPageQueryOption, ListMode, Order};
pub use record::Information;
pub use store::InformationStore;
