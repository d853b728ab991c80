//! Per-block and per-day chain datasets: cohort filters, height- and
//! date-indexed value maps, the bookkeeping that decides which datasets
//! still need data, and the integer parts of the price-paid statistics.

pub mod calendar;
pub mod cohort;
pub mod cohort_tables;
pub mod date_datasets;
pub mod filters;
pub mod height_datasets;
pub mod insert_plan;
pub mod maps;
pub mod min_initial_state;
pub mod price;
pub mod price_paid;
pub mod processed;
pub mod rewards;
pub mod selection;
pub mod serialization;
pub mod sub_datasets;
