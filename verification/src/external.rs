//! Links to the outside world: the exchanges whose prices are compared with ours and
//! the reports owed to the regulators.

pub mod exchange_sync;
pub mod regulatory_reporting;
