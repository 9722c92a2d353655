# flowchart_mcp

An MCP server for authoring flowcharts and exporting them to draw.io
(mxGraph XML), Mermaid, Graphviz DOT, SVG, PDF and JSON, with Mermaid
import, multi-page documents, swimlanes, themes, layers, stencils and UML
sequence diagrams.

## Layout

- `src/` — the library, verified with Verus. It holds the document model
  and every editing operation, the Mermaid importer, the Mermaid, DOT and
  draw.io writers, the sequence-diagram writers, step numbering, layer
  ranks, the correctness checks behind `validate_flowchart`, the templates,
  the stencil catalog, the handle store and the rules for every tool
  parameter. Each public function states what it returns in its `ensures`;
  `src/laws.rs` states properties that span several functions, and
  `src/round_trip.rs` proves that a plain chart's Mermaid export reads back.
- `app/` — the server around it: the MCP plumbing (rmcp, tokio), file I/O,
  JSON (serde), and everything that works in floating point: the
  auto-layout, the SVG and PDF renderers, and the coordinates handed to the
  draw.io writer.
- `tests/` — tests of the library.
