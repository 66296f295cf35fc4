pub mod error;
pub mod model;
pub mod reader;
pub mod spbf;
pub mod types;
pub mod upbf;
pub mod writer;
pub mod cli;
pub mod consistency;
pub mod layout;
