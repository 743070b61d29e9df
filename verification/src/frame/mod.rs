pub mod frame_errors;
pub mod header;
pub mod request;
pub mod response;
pub mod tail;
pub mod types;
pub mod value;
