pub mod text;
pub mod debug_spec;
pub mod debug_output;
pub mod stream;
pub mod parse;
pub mod compare_spec;
pub mod compare;
pub mod render;
pub mod pretty;
pub mod unpretty;
pub mod expect;
pub mod ord_mod;
pub mod invoking;
pub mod error;
pub mod auth;
pub mod token;
pub mod operations;
pub mod statement;
pub mod schema;
pub mod expe;
pub mod laws;
