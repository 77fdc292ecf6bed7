pub mod auth;
pub mod ip_access;
pub mod registry;
pub mod sanitize;
pub mod manager;
pub mod connection;
