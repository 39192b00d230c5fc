pub mod queue;
pub mod json;
pub mod tag_key;
pub mod song;
pub mod filter;
pub mod comparator;
pub mod request;
pub mod response;
pub mod playlist;
pub mod decoder;
