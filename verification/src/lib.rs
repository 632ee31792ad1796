//! Verified core of a command-line client for the QuickBooks Online API:
//! environment selection, profile and configuration handling, OAuth
//! redirect checking, secret-store attribute rules, logging filter choice
//! and request construction for the accounting API.

pub mod commands;
pub mod config;
pub mod logging;
pub mod text;
pub mod util;
