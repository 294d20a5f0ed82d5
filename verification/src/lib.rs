//! Device location reconciliation engine.
//!
//! Heterogeneous infrastructure sources (a managed switch, a wireless
//! controller, a firewall) each observe a partial picture of where client
//! devices are attached.  This library holds the verified core: merging
//! partial observations into one record per device, cross-referencing
//! MAC and IP information across all sources to fill missing fields,
//! dropping records with no resolvable attachment point, and the shared
//! dirty-flag state through which a publish loop drains the latest table.

pub mod adapters;
pub mod chars;
pub mod config;
pub mod merge;
pub mod ports;
pub mod publish;
pub mod reconcile;
pub mod record;
