pub mod analysis;
pub mod codegen;
pub mod express;
pub mod names;
pub mod scan;
pub mod step;
pub mod table;
