//! Renders a lax open hypergraph — nodes, labeled hyperedges, an open
//! source/target interface, and a quotient relation unifying nodes — into a
//! GraphViz DOT document: an ordered list of attribute, vertex and edge
//! statements that a layout tool can draw.

pub mod document;
pub mod escape;
pub mod hypergraph;
pub mod labels;
pub mod names;
pub mod options;
pub mod render;

pub use escape::escape_dot_label;
pub use labels::NodeType;
pub use labels::Operation;
pub use options::dark_theme;
pub use options::light_theme;
pub use options::Options;
pub use options::Orientation;
pub use options::Theme;
pub use render::generate_dot;
pub use render::generate_dot_with;
