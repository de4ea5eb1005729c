pub mod cursor;
pub mod format_laws;
pub mod loader;
pub mod lookup;
pub mod report;
pub mod types;

pub use self::loader::Loader;
pub use self::types::{GgufHeaders, GgufInfo, GgufKVMeta, GgufTensorInfo, GgufType, GgufValue};
