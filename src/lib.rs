pub mod ident;
pub mod models;
pub mod table;
pub mod service;
pub mod laws;
