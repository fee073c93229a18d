//! The load bias of the running executable: the offset to subtract from a
//! runtime address to get its address in the image on disk.
//!
//! There is one strategy per family of operating systems, each in a module of
//! its own with a function `read_aslr_offset`. Each takes what the operating
//! system reported and computes the bias from it:
//!
//! * [`proc_maps`] and [`regions`] look for the lowest mapping of the
//!   executable in the memory map of its process, given as text or as
//!   records;
//! * [`dyld`] takes the slide that the dynamic loader reports;
//! * [`pe_image`] compares the address of the loaded image with the base
//!   address that its headers ask for.

pub mod lowest;
pub mod proc_maps;
pub mod regions;
pub mod dyld;
pub mod pe_image;
