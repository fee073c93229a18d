//! Stack capture for x86_64 by frame pointers, and the address arithmetic
//! that symbolication of the captured addresses needs.
//!
//! The crate follows the data flow of a stack trace:
//!
//! * [`frame`] holds the register snapshot a walk starts from and the
//!   addresses it yields;
//! * [`walk`] defines the walk along the frame-pointer chain as a state
//!   machine, [`walk_laws`] states what holds of every walk, and
//!   [`unwinder`] runs the machine, through a copy of the stack in
//!   [`memory`] or one move at a time, for a reader of live memory that
//!   [`memory`] tells which reads would fault;
//! * [`framehop_walk`] walks a copy of the stack with the `framehop` crate
//!   deciding each frame;
//! * [`aslr`] computes the load bias of the running executable from what the
//!   operating system reports about the process, with [`text`] and
//!   [`paths`] to take the report apart;
//! * [`normalize`] turns absolute addresses into addresses relative to the
//!   image on disk;
//! * [`symbolize`] holds the settings for loading a symbol table.
//!
//! Everything here works on plain values and is verified with Verus, but for
//! what `framehop` finds for one frame, which is taken on trust. Reading
//! registers, raw memory, files and process metadata is left to the caller.

pub mod aslr;
pub mod error;
pub mod frame;
pub mod framehop_walk;
pub mod memory;
pub mod normalize;
pub mod paths;
pub mod symbolize;
pub mod text;
pub mod unwinder;
pub mod walk;
pub mod walk_laws;
