//! The identity manager: keeps the registration entries of the SPIFFE server in line with
//! its configuration.
pub mod config;
pub mod entries_client;
pub mod fake_connector;
pub mod reconcile;
