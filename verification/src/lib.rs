//! Table-of-contents generation for Markdown documents.
//!
//! Heading lines are recognised outside fenced code blocks, turned into
//! [`Heading`] values, and rendered as an indented, bulleted list whose
//! entries may link to the anchor of each heading.
//!
//! Every function is verified against a contract over character
//! sequences. The few calls that leave the crate (lower-casing, white
//! space, percent-encoding, paths) stand behind small trusted functions,
//! each documented where it is declared.
pub mod config;
pub mod fence;
pub mod heading;
pub mod slug;
pub mod text;
pub mod toc;

pub use config::Config;
pub use config::ConfigError;
pub use config::InputFile;
pub use config::Inline;
pub use config::Options;
pub use fence::Fence;
pub use fence::FenceTag;
pub use heading::Heading;
pub use slug::slugify;
pub use toc::render;
pub use toc::toc_lines;
