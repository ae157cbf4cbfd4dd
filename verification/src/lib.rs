//! # Tranche
//!
//! A tranche is a non-owning view over a contiguous sequence of elements
//! that is consumed from its front: one element at a time, or a whole front
//! at once, which comes back as a tranche of its own. Nothing is copied and
//! nothing is allocated, so a tranche of bytes is a convenient cursor for
//! parsing binary data field by field.
//!
//! * [`Tranche`] is the plain view.
//! * [`BasedTranche`] also remembers where it started, and tells how many
//!   elements have been taken since.
//! * [`BufTranche`] and [`BasedBufTranche`] are the two over bytes; they
//!   read fixed-width integers in native, little or big endian order, and
//!   they serve as buffered readers.
//! * [`UnexpectedEndError`] is the one error: more was asked for than was
//!   left. A failed operation leaves its tranche untouched.

pub mod based;
pub mod buf;
pub mod bytes;
pub mod error;
pub mod iter;
pub mod laws;
pub mod stream;
pub mod tranche;

pub use based::{BasedBufTranche, BasedTranche};
pub use error::UnexpectedEndError;
pub use tranche::{BufTranche, Tranche};
