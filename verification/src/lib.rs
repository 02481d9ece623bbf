//! The verified core of a small book-authoring backend.
//!
//! Two things are done here, both on values in memory; files are the
//! caller's business.
//!
//! * Stored files (`.ketabi`): a JSON value, written as compact JSON and
//!   gzipped. [`sync::sync`] makes the bytes to store and [`read::read_file`]
//!   reads a value back from stored bytes; both go through the same
//!   [`guard`], which admits a path only by its extension and caps the size
//!   of what is read.
//! * EPUB export: [`epub::generate`] validates a document, turns each page
//!   into a [`part::Part`] (a file name from the [`slug`] of its title, a
//!   listed title, an [`xhtml`] document) and has the packaging library make
//!   the container.
//!
//! What is stated and not proved is marked where it stands: the contracts of
//! the outside calls in [`codec`], [`book`] and [`slug`], the two error
//! descriptions in [`epub`], and `String::push` in [`text`].

pub mod book;
pub mod codec;
pub mod epub;
pub mod guard;
pub mod part;
pub mod read;
pub mod slug;
pub mod sync;
pub mod text;
pub mod xhtml;
