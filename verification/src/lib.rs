//! Verified core of a CSV-exploring terminal tool.
//!
//! The library covers the data pipeline of the tool: classifying raw string
//! columns as numeric or not, pairing numeric columns into two-dimensional
//! series for plotting, the index arithmetic of the nearest-rank percentile
//! table, and the bounded-cyclic navigation state that drives the cursor.
//! Everything here is ordinary data logic over strings and integers; the
//! terminal rendering around it consumes the results read-only.

pub mod classify;
pub mod decimal;
pub mod lex;
pub mod nav;
pub mod numeric;
pub mod pairing;
pub mod pipeline;
pub mod stats;
pub mod width;

pub use classify::classify;
pub use classify::NumericColumn;
pub use nav::App;
pub use nav::AppState;
pub use nav::SelectedTab;
pub use nav::SelectionState;
pub use pairing::group;
pub use pairing::PlotSeries;
pub use pipeline::parse_records;
