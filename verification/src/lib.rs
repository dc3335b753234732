pub mod builder;
pub mod ecode;
pub mod ejdb;
pub mod ejdbquery;
pub mod jbl;
pub mod json;
pub mod json_tree;
pub mod nesting;
pub mod options;
pub mod python;
pub mod replay;
pub mod text;
pub mod value;
