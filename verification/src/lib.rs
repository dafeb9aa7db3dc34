//! The decision logic of two pages of a desktop first-run setup assistant:
//! choosing a desktop layout (`layout`) and adjusting accessibility and
//! display scaling (`welcome`).

pub mod decimal;
pub mod text;
pub mod metadata;
pub mod layout;
pub mod welcome;
