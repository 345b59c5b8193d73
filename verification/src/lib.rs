//! Time-bucketed file organisation.
//!
//! The crate decides where files go when a directory is sorted into folders
//! named after the week in which each file was last modified, and when such a
//! tree is flattened again. It never touches the file system itself: a driver
//! performs the requests the [`organizer`] hands out and reports what happened.

pub mod bucket;
pub mod calendar;
pub mod organizer;
pub mod text;
pub mod traversal;
