//! Budget2: the verified core of a household budgeting application.

pub mod single_user;
pub mod model;
pub mod text;
pub mod web;
