//! A reference-counted, copy-on-write growable buffer.
//!
//! Cloning an [`ArcBuffer`] only shares its allocation; the first mutation
//! through a handle whose allocation is shared gives that handle a private
//! copy first, so no other handle ever sees the change.

pub mod buf;
pub mod hooks;
mod shared;

pub use buf::ArcBuffer;
pub use hooks::panic_hook;
