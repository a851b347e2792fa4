pub mod projects;
pub mod download;
pub mod library;
pub mod search;
