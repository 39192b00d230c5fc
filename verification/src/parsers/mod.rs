pub mod request;
pub mod filter;
