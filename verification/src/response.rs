pub mod decimal;
pub mod response;
pub mod status_code;
pub mod status_line;

pub use response::Response;
pub use status_code::StatusCode;
pub use status_line::StatusLine;
