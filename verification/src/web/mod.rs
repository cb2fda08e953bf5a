//! The decisions of the web front end: dashboard queries and charts, statement uploads,
//! request context and forms.

pub mod dashboard;
pub mod helpers;
pub mod import;
pub mod request_context;
pub mod forms;
pub mod pages;
