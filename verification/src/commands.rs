//! Request construction for the commands that call the QuickBooks APIs.

pub mod accounting;
