pub mod cli;
pub mod database;
pub mod error;
pub mod hash;
pub mod ingest;
pub mod locate;
pub mod paths;
pub mod reconcile;
pub mod store;
pub mod text;
