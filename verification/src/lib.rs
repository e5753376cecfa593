//! An emulator core for an 8-bit "CHIP-8"-class virtual machine, verified
//! with Verus: the machine state, the instruction decoder/dispatcher, the
//! 60 Hz frame scheduler with drift compensation, the command interface and
//! the snapshot publisher. Every instruction's effect is pinned by a spec
//! function over the machine's mathematical view, and the crate's laws
//! (ROM loading, XOR-draw round trips, linear runs, drift compensation) are
//! proved from those same definitions.
pub mod machine;
pub mod dispatch;
pub mod runtime;
pub mod sched;
pub mod laws;
