pub mod text;
pub mod models;
pub mod dates;
pub mod config;
pub mod storage;
pub mod ranking;
pub mod fetcher;
pub mod summary;
pub mod image;
pub mod readme;
pub mod pipeline;
pub mod medium;
