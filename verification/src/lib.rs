//! Small-caps markup for markdown books: the delimiter pair `==word==` in the
//! text of a chapter becomes `<span class="small-caps">word</span>`.
//!
//! - [`scanner`] rewrites one run of plain text;
//! - [`laws`] and [`settled`] state what holds of the scanner on every text;
//! - [`markdown`] applies the scanner to the text events of markdown source;
//! - [`book`] walks the chapters of a book;
//! - [`cli`], [`install`] and [`version`] decide what an invocation of the
//!   preprocessor does.

pub mod book;
pub mod cli;
pub mod install;
pub mod laws;
pub mod markdown;
pub mod scanner;
pub mod settled;
pub mod version;
