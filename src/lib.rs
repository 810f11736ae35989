//! A preprocessor for mdbook that checks the frontmatter of each chapter
//! against a JSON schema, and either reports what does not conform or
//! rewrites the frontmatter towards the schema.
pub mod config;
pub mod error;
pub mod frontmatter;
pub mod outside;
pub mod preprocessor;
pub mod schema;

pub use config::Config;
pub use error::FrontmatterError;
pub use preprocessor::FrontmatterPreprocessor;
