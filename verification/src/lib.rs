pub mod text;
pub mod models;
pub mod config;
pub mod keyboards;
pub mod routing;
pub mod flows;
pub mod contribution;
pub mod database;
