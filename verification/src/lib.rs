pub mod allocation;
pub mod clock;
pub mod config;
pub mod device;
pub mod diagnostics;
pub mod engine;
pub mod formatting;
pub mod order;
pub mod reports;
pub mod table;
pub mod text;
pub mod totals;
pub mod types;
