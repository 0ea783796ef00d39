pub mod attributes;
pub mod bridge;
pub mod collection;
pub mod completion;
pub mod decimal;
pub mod error;
pub mod flags;
pub mod item;
pub mod keys;
pub mod memory;
pub mod password;
pub mod request;
pub mod schema;
pub mod service;
