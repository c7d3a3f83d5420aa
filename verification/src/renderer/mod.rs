//! Renderers from the IR to text.
pub mod expr;
pub mod pseudo;
pub mod explain;

pub use explain::ExplainRenderer;
pub use pseudo::PseudoRenderer;
