//! State machine of a terminal file explorer with a document preview:
//! directory listings, cursor movement, a small command line, and the
//! pipeline that turns file text into styled, scrollable lines.

pub mod chars;
pub mod entries;
pub mod lines;
pub mod highlight;
pub mod display;
pub mod markdown;
pub mod paths;
pub mod command;
pub mod explorer;
pub mod preview;
pub mod session;
