//! Styled text for ESC/P dot-matrix printers.
//!
//! The crate turns styled text into the byte stream that an ESC/P printer
//! understands, and keeps the books for delivering such a stream to a device
//! that may take only part of a buffer per call.
//!
//! * [`style`] holds the control-code table and the tracker of what is active
//!   on the output stream.
//! * [`fragment`] is a run of text with the style wanted for it.
//! * [`encoder`] walks a sequence of fragments and emits the fewest codes that
//!   give every fragment its style.
//! * [`token`] turns highlighter tokens into fragments.
//! * [`ansi`] prints text that is styled with ANSI escape sequences.
//! * [`highlight`] prints source code as a numbered, highlighted listing.
//! * [`header`] prints the header that stands above a file.
//! * [`transfer`] is the cursor over a buffer that a device accepts piecewise.
//! * [`feed`] runs a whole print job: what to read, what to write, when to stop.

pub mod ansi;
pub mod encoder;
pub mod feed;
pub mod fragment;
pub mod header;
pub mod highlight;
pub mod style;
pub mod token;
pub mod transfer;
