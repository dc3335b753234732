pub mod ejdb;
pub mod from_jbl;
pub mod query;
pub mod to_jbl;
pub mod tree;
