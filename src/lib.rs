use vstd::prelude::*;

pub mod configs;
pub mod convert;
pub mod devices;
pub mod dictionary;
pub mod errors;
pub mod names;
pub mod parser;
pub mod parsing;
pub mod text;

pub use configs::{ConfigAquatic, ConfigFluorometer, ConfigKind, ConfigSoil, ConfigStandard};
pub use convert::ColumnData;
pub use devices::{Device6400, Device6800, DeviceKind, LiCorMetadata};
pub use dictionary::{DataType, VariableDef, VariableDictionary};
pub use errors::{ErrorView, ParseError};
pub use parser::{LiCorData, LiCorParser, TypedColumn, VariableInfo};
pub use parsing::{HeaderMap, RawLiCorFile};

verus! {

} // verus!
