pub mod config;
pub mod engine;
pub mod error;
pub mod expr;
pub mod generator;
pub mod laws;
pub mod operators;
pub mod types;
pub mod value;

pub use config::ConfigParser;
pub use engine::Engine;
pub use error::{DataFakeError, ErrorKind, Result};
pub use generator::DataGenerator;
pub use operators::FakeOperator;
pub use types::{DataFakeConfig, GenerationContext, Metadata};
pub use value::Value;
