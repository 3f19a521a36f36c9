pub mod macros;
pub mod dsl;
pub mod values;
pub mod media_query;
pub mod validation;
pub mod sqlize;
pub mod display;
pub mod options;
pub mod roundtrip;

pub use options::MediaQuery;
pub use media_query::JoinableTable;
