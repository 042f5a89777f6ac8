//! A verified model of a Raspberry Pi GPIO LED driver and the character
//! device that fronts it.
//!
//! The crate has two layers. [`gpio`] models the SoC's GPIO register block
//! (function-select, set, clear and level registers) and proves that every
//! pin operation touches exactly the bit field it names. [`device`] is the
//! buffer manager behind the character device: a fixed 4096-byte store whose
//! writes are bounds-checked and, when the written byte is an ASCII digit
//! command, forwarded to the GPIO layer as a LED pin update.
//!
//! The memory-mapped I/O itself (turning a physical base address into live
//! registers) and the host's file-operation plumbing are the embedding
//! program's business; this library holds the register and buffer logic that
//! those calls drive, with its contracts.

pub mod device;
pub mod gpio;
