//! A builder for SVG documents.
//!
//! Callers construct a document out of graphical primitives (circles,
//! rectangles, lines, polylines, polygons, text), geometric transforms and
//! nested groups, then serialize the whole structure to a single well-formed
//! text document.  Every rendering function carries a contract that pins the
//! produced text down exactly, character for character.
//!
//! Known limitation, by design: attribute keys, attribute values and text
//! content are emitted as given, with no escaping of markup-sensitive
//! characters.  The caller is responsible for supplying already-safe text.

pub mod numfmt;
pub mod attrib;
pub mod transform;
pub mod common;
pub mod shapes;
pub mod text;
pub mod entity;
pub mod document;

pub use attrib::AttributeMap;
pub use common::rgb;
pub use document::Head;
pub use document::SVG;
pub use entity::Shape;
pub use shapes::Circle;
pub use shapes::Ellipse;
pub use shapes::Line;
pub use shapes::PolyLine;
pub use shapes::Polygon;
pub use shapes::Rect;
pub use shapes::RoundedRect;
pub use text::Text;
pub use transform::Transform;
