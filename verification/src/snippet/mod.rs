pub mod loader;
pub mod model;
