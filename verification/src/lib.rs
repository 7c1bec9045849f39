//! A declarative scene-graph layout engine for a retained-mode GUI.
//!
//! Applications build a tree of abstract nodes (layers, rows, columns,
//! rectangles, textures, spacers) annotated with layout rules.  Each frame the
//! engine resolves that tree, against the current screen extent, into concrete
//! screen-space rectangles and emits two ordered lists of draw primitives
//! (flat-colored and textured) tagged with a monotonically increasing
//! draw-order index.  A rendering back end consumes those lists.

pub mod batch;
pub mod geometry;
pub mod laws;
pub mod layout;
pub mod scene;
pub mod texture;

pub use batch::TextureBatch;
pub use layout::DrawLists;
pub use layout::FlatPrimitive;
pub use layout::LayoutError;
pub use layout::TexturedPrimitive;
pub use scene::Anchor;
pub use scene::Node;
pub use scene::NodeId;
pub use scene::Position;
pub use scene::Scene;
pub use scene::Size;
pub use texture::TextureId;
pub use texture::TextureInfoManager;

pub use geometry::Color;
pub use geometry::Dimension;
pub use geometry::Ratio;
pub use geometry::Rect;
