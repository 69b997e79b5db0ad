pub mod assembler;
pub mod request;
pub mod request_line;

pub use assembler::{Assembler, Progress, Pull};
pub use request::Request;
pub use request_line::RequestLine;
