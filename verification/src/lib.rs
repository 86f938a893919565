#![verifier::loop_isolation(false)]
//! Parser and resolver for instrument definition files: a schema describing
//! detector geometry as a hierarchy of typed, reusable components with
//! positional transforms.

pub mod bytemap;
pub mod component_tree;
pub mod detector_definition;
pub mod errors;
pub mod fixed;
pub mod geometry;
pub mod idlists;
pub mod numbers;
pub mod structs;
pub mod types;
pub mod utils;
pub mod xml_parser;

pub use detector_definition::DetectorDefinition;
