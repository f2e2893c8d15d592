pub mod clock;
pub mod config;
pub mod manager;
pub mod mod_trait;
pub mod string_map;
pub mod toposort;
pub mod validation;
