//! The made-up data the exchange starts with: the markets and order templates of the
//! simulator, the default users, and the initial order books.

pub mod fake_data;
pub mod loader;
