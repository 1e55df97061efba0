pub mod command;
pub mod flag;
pub mod help;
pub mod partition;
pub mod version;
