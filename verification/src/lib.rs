//! Token-saving text proxy: prompt refinement, HTML/JSON cleaning,
//! URL admission rules and the bookkeeping around them.

pub mod token;
pub mod text;
pub mod matching;
pub mod optimizer;
pub mod error;
pub mod url_validator;
pub mod html_cleaner;
pub mod json_cleaner;
pub mod db;
pub mod config;
pub mod data_proxy;
pub mod service;
