pub mod converters;
pub mod detector;
pub mod schema;
pub mod errors;
pub mod fsmodel;
pub mod iniconf;
pub mod pep440;
pub mod pep508;
pub mod strmap;
pub mod text;
pub mod utils;
