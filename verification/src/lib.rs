//! Verified core of a viewer that shows one mesh.
//!
//! * [`wavefront`] parses the text of a mesh description file into the plain
//!   data of [`source`].
//! * [`mesh`] builds an indexed triangle mesh from the one object of a file,
//!   sharing a vertex between all corners with the same key ([`dedup`] says
//!   what that means, [`cache`] is the map that does it, [`vertex`] is the
//!   vertex format, [`error`] is what can go wrong).
//! * [`guarantees`] states what holds of every mesh and of every rejection.
//! * [`render_loop`] decides, event by event, whether the frame loop draws,
//!   presents or stops.
//! * [`triangle`] is the vertex table of the simplest scene.
//!
//! Reading files, talking to the window and to the graphics device, and
//! all floating-point arithmetic are left to the program around the library.

pub mod cache;
pub mod dedup;
pub mod error;
pub mod guarantees;
pub mod mesh;
pub mod render_loop;
pub mod source;
pub mod triangle;
pub mod vertex;
pub mod wavefront;
