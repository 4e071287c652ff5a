pub mod compiler;
pub mod driver;
pub mod text;
pub mod utils;
