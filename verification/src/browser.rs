//! The browser: loading, navigation and the documents it shows.

pub mod html;
pub mod network;
pub mod tab;
pub mod widgets;
