//! Templating of SQL statements: a template with positional placeholders is
//! parsed into segments, values are bound as escaped SQL literals, and the
//! finished statement is rendered.
pub mod bind;
pub mod builder;
pub mod escape;
pub mod laws;
pub mod template;

pub use bind::{Bind, Identifier};
pub use builder::{Error, SqlBuilder};
