pub mod client;
pub mod constants;
pub mod json;
pub mod lifecycle;
pub mod message;
pub mod pagination;
pub mod params;
pub mod pending;
pub mod prompts;
pub mod resources;
pub mod server;
pub mod template;
pub mod text;
pub mod tools;
pub mod types;
pub mod version;
