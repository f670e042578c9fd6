//! A harness for conformance tests that run over HTTP: templates with
//! placeholders, the services a test depends on, the requests it sends and
//! the comparison of each response with the one that was expected.

pub mod assertions;
pub mod config;
pub mod conformance;
pub mod http;
pub mod manifest_template;
pub mod report;
pub mod services;
pub mod test_environment;
pub mod text;
