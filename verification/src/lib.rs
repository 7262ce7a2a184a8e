//! A markdown-to-terminal renderer: turns a markdown event stream into a
//! flat sequence of styled display lines plus a registry of image
//! references anchored to the lines where their captions were emitted.

pub mod events;
pub mod html_img;
pub mod laws;
pub mod model;
pub mod parse;
pub mod protocol;
pub mod render;
pub mod style;
pub mod text;

pub use parse::render_markdown;
pub use protocol::ImageProtocol;
pub use render::RenderedDoc;
pub use render::RenderedImage;
pub use render::render_events;
pub use style::RenderLine;
pub use style::Style;
pub use style::StyledRun;
