pub mod error;
pub mod forecast;
pub mod json;
pub mod render;
pub mod request;
pub mod text;
pub mod time;
