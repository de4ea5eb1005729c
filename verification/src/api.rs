pub mod request_laws;
pub mod types;
pub mod worker;
