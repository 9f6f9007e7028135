pub mod api;
pub mod cli;
pub mod error;
pub mod fetch;
pub mod instances;
pub mod project;
pub mod safety;
pub mod scripts;
pub mod text;
pub mod unicode;
