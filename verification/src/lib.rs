pub mod cache;
pub mod completion;
pub mod fetcher;
pub mod hover;
pub mod json;
pub mod parser;
pub mod position;
pub mod registry;
pub mod text;
pub mod timestamp;
pub mod version;
