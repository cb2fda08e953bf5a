//! The single-user edition of the application, where accounts, categories and rules belong
//! to one user rather than to a household: its statement importers, dashboard filters,
//! rules and page helpers.

pub mod columns;
pub mod csv;
pub mod import;
pub mod statement;
pub mod handlers;
pub mod models;
pub mod filters;
pub mod rows;
pub mod request_context;
pub mod static_files;
pub mod rules;
pub mod dashboard;
pub mod auth;
pub mod chart;
