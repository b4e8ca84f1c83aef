pub mod parser;
mod reader;
mod structure;

pub use parser::{ParseError, exchange_file};
pub use reader::{EntityStore, StepReader, read_instances};
pub use structure::{
    EntityInstance, EntityRef, ExchangeFile, Parameter, TypedParameter, UnTypedParameter,
};
