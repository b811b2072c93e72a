//! Locating the sections of a loaded executable image.
//!
//! An executable that the loader has mapped into memory begins with its
//! headers: a base header, an extended header that the base header points to,
//! and behind it the section table, one fixed-size record per section. Given
//! the address at which an image is mapped and the bytes mapped there,
//! [`SecLoc`] walks that table and hands out each record as a [`Section`]:
//! all of them, the first that bears a given name, or one by one to a
//! callback that can end the walk.
//!
//! Every function here is verified against a contract over the bytes of the
//! image. [`layout`] says where each field lies, [`section`] what the table
//! holds, and [`locator`] holds the handle and its walks.

pub mod bytes;
pub mod layout;
pub mod locator;
pub mod name;
pub mod section;

pub use locator::SecLoc;
pub use section::Section;
