pub mod fake;

pub use fake::FakeOperator;
