pub mod list;
pub mod run;
