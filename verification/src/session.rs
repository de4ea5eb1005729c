pub mod session_base;
pub mod session_manager;

pub use self::session_base::Session;
pub use self::session_manager::SessionManager;
