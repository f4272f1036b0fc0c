pub mod hatch;
pub mod pep_621;
pub mod poetry;
pub mod pyproject;
pub mod utils;
pub mod uv;
