//! A document-browsing engine: resource loading decisions, navigation
//! history and two markup parsers that share one block/inline model.

pub mod browser;
pub mod editor;
pub mod gemtext;
pub mod gemtext_widget;
pub mod text;
pub mod util;
