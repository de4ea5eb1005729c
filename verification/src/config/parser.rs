pub mod deepseek2;
pub mod lfm2;
pub mod utility;

pub use self::deepseek2::Deepseek2Parser;
pub use self::lfm2::Lfm2Parser;
