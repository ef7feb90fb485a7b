//! Typed, endianness-aware cursors over in-memory byte buffers.
//!
//! [`Input`] is a bounds-checked reading cursor over a borrowed byte
//! buffer: every read either returns exactly the bytes asked for or
//! fails with the exact deficit, leaving the cursor untouched.
//! [`Output`] is an append-only writing cursor over an owned buffer:
//! every write appends exactly the encoding of its value and can never
//! fail.  Both decode and encode fixed-width integers of one to sixteen
//! bytes in either byte order; [`endian`] holds the byte-order model and
//! the round-trip laws the cursors obey.

pub mod endian;
pub mod input;
pub mod output;

pub use input::Context;
pub use input::Input;
pub use input::InputError;
pub use output::Output;
