pub mod text;
pub mod unicode;
pub mod pieces;
pub mod services;
pub mod routes;
pub mod numbers;
pub mod models;
pub mod error;
pub mod config;
pub mod db;
pub mod ids;
