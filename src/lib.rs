pub mod config;
pub mod extract;
pub mod job;
pub mod notify;
pub mod page;
pub mod product;
pub mod text;
