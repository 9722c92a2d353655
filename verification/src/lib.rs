//! Flowchart authoring: documents of flowchart pages and UML sequence
//! diagrams, their editing operations, Mermaid import, export to Mermaid,
//! Graphviz DOT and draw.io, correctness checks, templates, a stencil
//! catalog, a bounded handle store, and the rules for the parameters of the
//! server's tools.
//!
//! - [`engine`]: the flowchart model and what is done with it.
//! - [`sequence`]: sequence diagrams and their exporters.
//! - [`server`]: tool parameters, page batches and export file names.
//! - [`store`]: documents kept under random handles, with idle expiry and
//!   least-recently-used eviction.
//! - [`laws`]: properties that span several operations.
//! - [`round_trip`]: a Mermaid export read back gives the chart again.
//! - [`outcomes`]: what reading, checking and writing charts must give.

pub mod engine;
pub mod error;
pub mod laws;
pub mod outcomes;
pub mod round_trip;
pub mod sequence;
pub mod server;
pub mod stencils;
pub mod store;
pub mod templates;
pub mod text;
pub mod types;
