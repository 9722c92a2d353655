//! Parameter types of the flowchart tools.

pub mod inputs;
