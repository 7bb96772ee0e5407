//! A conformance testing library for WDL (Workflow Description Language)
//! execution engines: it extracts test fixtures and resource files from a
//! markdown specification, resolves the workflow or task each test exercises,
//! materialises the suite on disk, and judges an engine's output against the
//! expected JSON.

pub mod badge;
pub mod config;
pub mod driver;
pub mod json;
pub mod repository;
pub mod resource;
pub mod result;
pub mod runner;
pub mod scan;
pub mod shell;
pub mod test;
pub mod validation;
pub mod wdl;
