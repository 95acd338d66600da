//! Architectures and profiles that stage3 archives are published for.
pub mod arch;
pub mod architecture;
pub mod manager;
pub mod parser;
pub mod selected;
