//! A verified core for an exchange back end: orders and their model, price levels and
//! order books, the price-time priority matching engine, order book change tracking,
//! and the small counting and keying helpers that the services around it use.

use vstd::prelude::*;

pub mod outside;
pub mod text;
pub mod keys;
pub mod keyed;
pub mod model;
pub mod api;
pub mod order_book;
pub mod book_index;
pub mod matching;
pub mod engine;
pub mod orderbook_tracker;
pub mod metrics;
pub mod routing;
pub mod notification;
pub mod log_analyzer;
pub mod dashboard;
pub mod random;
pub mod analytics;
pub mod ultra;
pub mod mdp;
pub mod mq;
pub mod system_health;
pub mod data;
pub mod db;
pub mod cache;
pub mod external;
pub mod simulator;
