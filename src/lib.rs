//! Assembly of conformance-test scripts: a test file carries a metadata block
//! between `/*---` and `---*/`; its `includes` list, followed by two bootstrap
//! files, names the support files whose contents are prepended to the test body.

pub mod error;
pub mod yaml;
pub mod frontmatter;
pub mod metadata;
pub mod compose;
pub mod pipeline;
