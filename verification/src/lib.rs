//! Builds XML document trees from a stream of structural events.
//!
//! An [`ElementBuilder`] consumes element-start/end markers, character data,
//! CDATA sections, comments and processing instructions one at a time,
//! assembles them into [`Element`] trees, resolves default-namespace scoping
//! and prefix bindings, and reports improperly nested markers.

pub mod builder;
pub mod laws;
pub mod model;
pub mod prefix_table;
pub mod types;

pub use builder::ElementBuilder;
pub use prefix_table::PrefixTable;
pub use types::Attribute;
pub use types::BuilderError;
pub use types::Element;
pub use types::EndTag;
pub use types::Event;
pub use types::ParserError;
pub use types::StartTag;
pub use types::Xml;
