//! Outline compiler and build orchestration for a markdown documentation book.
pub mod markdown;
pub mod introduction;
pub mod text;
pub mod parser;
pub mod docgen;
pub mod config;
pub mod init;
pub mod pipeline;
pub mod laws;

pub use config::{BuildConfig, Config, Deprecation, DocgenConfig, HtmlConfig};
pub use docgen::{for_each_mut, init_docgen, DocItemVisitor, Docgen, KeepItems};
pub use init::{DocGenerator, StubFile};
pub use introduction::{DocItem, Introduction, Link, SectionNumber};
pub use markdown::{MdEvent, TagKind, Token};
pub use parser::{parse_events, parse_introduction, EventCursor, ParseError, ParseErrorKind};
pub use pipeline::{build_plan, Stage};
