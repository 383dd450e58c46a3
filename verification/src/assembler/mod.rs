pub mod architecture;
pub mod parser;
pub mod encoder;
