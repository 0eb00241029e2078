//! Control-plane logic for an nginx upstream pool: admission of a server
//! address, the weight policy, the rewrite of the pool file line by line and
//! the protocol that orders lock, backup, rewrite, reload and rollback.

pub mod config_load;
pub mod decimal;
pub mod engine;
pub mod engine_laws;
pub mod nginx_utils;
pub mod policy;
pub mod pool_file;
pub mod pool_laws;
pub mod utils;
